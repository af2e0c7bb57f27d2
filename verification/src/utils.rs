use crate::document::{
    docv_wf, has_member, insert_member, lex_lt, merge, merge_docv, Doc, DocV,
};
use crate::fields::opt_doc_view;
use crate::message;
use crate::ruddermessage;
use crate::ruddermessage::Ruddermessage;
use crate::timestamp::Timestamp;
use vstd::prelude::*;
use vstd::string::StringExecFns;

verus! {

/// The fixed library-identity context: `{"library": {"name": ..., "version": ...}}`.
pub open spec fn spec_default_context() -> DocV {
    DocV::Obj(
        seq![
            (
                "library"@,
                DocV::Obj(
                    seq![
                        ("name"@, DocV::Str("RudderStack Rust SDK"@)),
                        ("version"@, DocV::Str("1.1.3"@)),
                    ],
                ),
            ),
        ],
    )
}

/// The context a wire envelope carries: the library identity as the base,
/// overlaid by the caller's context (or by nothing).
pub open spec fn spec_wire_context(own: Option<DocV>) -> DocV {
    merge_docv(
        spec_default_context(),
        match own {
            Some(c) => c,
            None => DocV::Obj(Seq::empty()),
        },
    )
}

/// Builds the fixed library-identity context document.
pub fn get_default_context() -> (r: Doc)
    ensures
        r@ == spec_default_context(),
        docv_wf(r@),
{
    let name_value = Doc::Str(String::from_str("RudderStack Rust SDK"));
    let version_value = Doc::Str(String::from_str("1.1.3"));
    let ghost name_v = name_value@;
    let ghost version_v = version_value@;
    let lib = Doc::empty_object().set("name", name_value).set("version", version_value);
    proof {
        reveal_strlit("name");
        reveal_strlit("version");
        assert(lex_lt("name"@, "version"@));
        assert(insert_member(Seq::empty(), "name"@, name_v) =~= seq![("name"@, name_v)]);
        assert(!lex_lt("version"@, "name"@));
        assert("version"@ != "name"@);
        reveal_with_fuel(insert_member, 2);
        assert(insert_member(seq![("name"@, name_v)], "version"@, version_v) =~= seq![
            ("name"@, name_v),
            ("version"@, version_v),
        ]);
    }
    let ghost lib_v = lib@;
    let r = Doc::empty_object().set("library", lib);
    proof {
        assert(insert_member(Seq::empty(), "library"@, lib_v) =~= seq![("library"@, lib_v)]);
        assert(r@ =~~= spec_default_context());
    }
    r
}

/// Whether the given context document carries a library-reserved top-level
/// key; the single reserved key is `"library"`, which the merger always owns.
pub fn check_reserved_keywords_conflict(context: &Doc) -> (r: bool)
    requires
        context@ is Obj,
    ensures
        r == has_member(context@->Obj_0, "library"@),
{
    context.has_key("library")
}

/// The envelope's original timestamp: the event's own, or the submission
/// instant when the event carries none.
pub open spec fn wire_original_timestamp(ot: Option<Timestamp>, now: Timestamp) -> Option<
    Timestamp,
> {
    match ot {
        Some(t) => Some(t),
        None => Some(now),
    }
}

pub(crate) fn clone_opt_string(o: &Option<String>) -> (r: Option<String>)
    ensures
        r == *o,
{
    match o {
        Some(s) => Some(s.clone()),
        None => None,
    }
}

pub(crate) fn clone_opt_doc(o: &Option<Doc>) -> (r: Option<Doc>)
    ensures
        opt_doc_view(r) == opt_doc_view(*o),
        r is Some <==> o is Some,
{
    match o {
        Some(d) => Some(d.deep_clone()),
        None => None,
    }
}

/// The context attached to a wire envelope, built from the event's own.
fn wire_context_of(ctx: &Option<Doc>) -> (r: Doc)
    ensures
        r@ == spec_wire_context(opt_doc_view(*ctx)),
        message::context_object(*ctx) && message::context_wf(*ctx) ==> docv_wf(r@),
        message::context_object(*ctx) ==> r@ is Obj,
{
    let base = get_default_context();
    let r = match ctx {
        Some(c) => merge(&base, c),
        None => {
            let empty = Doc::empty_object();
            merge(&base, &empty)
        },
    };
    r
}

/// What the wire form of a identify event holds, given the submission instant.
pub open spec fn identify_wire_of(w: ruddermessage::Identify, m: message::Identify, now: Timestamp) -> bool {
    &&& w.user_id == m.user_id
    &&& w.anonymous_id == m.anonymous_id
    &&& opt_doc_view(w.traits) == opt_doc_view(m.traits)
    &&& w.original_timestamp == wire_original_timestamp(m.original_timestamp, now)
    &&& w.sent_at == Some(now)
    &&& opt_doc_view(w.context) == Some(spec_wire_context(opt_doc_view(m.context)))
    &&& opt_doc_view(w.integrations) == opt_doc_view(m.integrations)
    &&& w.type_@ == "identify"@
    &&& w.channel@ == "server"@
}

/// What the wire form of a track event holds, given the submission instant.
pub open spec fn track_wire_of(w: ruddermessage::Track, m: message::Track, now: Timestamp) -> bool {
    &&& w.user_id == m.user_id
    &&& w.anonymous_id == m.anonymous_id
    &&& w.event == m.event
    &&& opt_doc_view(w.properties) == opt_doc_view(m.properties)
    &&& w.original_timestamp == wire_original_timestamp(m.original_timestamp, now)
    &&& w.sent_at == Some(now)
    &&& opt_doc_view(w.context) == Some(spec_wire_context(opt_doc_view(m.context)))
    &&& opt_doc_view(w.integrations) == opt_doc_view(m.integrations)
    &&& w.type_@ == "track"@
    &&& w.channel@ == "server"@
}

/// What the wire form of a page event holds, given the submission instant.
pub open spec fn page_wire_of(w: ruddermessage::Page, m: message::Page, now: Timestamp) -> bool {
    &&& w.user_id == m.user_id
    &&& w.anonymous_id == m.anonymous_id
    &&& w.name == m.name
    &&& opt_doc_view(w.properties) == opt_doc_view(m.properties)
    &&& w.original_timestamp == wire_original_timestamp(m.original_timestamp, now)
    &&& w.sent_at == Some(now)
    &&& opt_doc_view(w.context) == Some(spec_wire_context(opt_doc_view(m.context)))
    &&& opt_doc_view(w.integrations) == opt_doc_view(m.integrations)
    &&& w.type_@ == "page"@
    &&& w.channel@ == "server"@
}

/// What the wire form of a screen event holds, given the submission instant.
pub open spec fn screen_wire_of(w: ruddermessage::Screen, m: message::Screen, now: Timestamp) -> bool {
    &&& w.user_id == m.user_id
    &&& w.anonymous_id == m.anonymous_id
    &&& w.name == m.name
    &&& opt_doc_view(w.properties) == opt_doc_view(m.properties)
    &&& w.original_timestamp == wire_original_timestamp(m.original_timestamp, now)
    &&& w.sent_at == Some(now)
    &&& opt_doc_view(w.context) == Some(spec_wire_context(opt_doc_view(m.context)))
    &&& opt_doc_view(w.integrations) == opt_doc_view(m.integrations)
    &&& w.type_@ == "screen"@
    &&& w.channel@ == "server"@
}

/// What the wire form of a group event holds, given the submission instant.
pub open spec fn group_wire_of(w: ruddermessage::Group, m: message::Group, now: Timestamp) -> bool {
    &&& w.user_id == m.user_id
    &&& w.anonymous_id == m.anonymous_id
    &&& w.group_id == m.group_id
    &&& opt_doc_view(w.traits) == opt_doc_view(m.traits)
    &&& w.original_timestamp == wire_original_timestamp(m.original_timestamp, now)
    &&& w.sent_at == Some(now)
    &&& opt_doc_view(w.context) == Some(spec_wire_context(opt_doc_view(m.context)))
    &&& opt_doc_view(w.integrations) == opt_doc_view(m.integrations)
    &&& w.type_@ == "group"@
    &&& w.channel@ == "server"@
}

/// What the wire form of a alias event holds, given the submission instant.
pub open spec fn alias_wire_of(w: ruddermessage::Alias, m: message::Alias, now: Timestamp) -> bool {
    &&& w.user_id == m.user_id
    &&& w.previous_id == m.previous_id
    &&& opt_doc_view(w.traits) == opt_doc_view(m.traits)
    &&& w.original_timestamp == wire_original_timestamp(m.original_timestamp, now)
    &&& w.sent_at == Some(now)
    &&& opt_doc_view(w.context) == Some(spec_wire_context(opt_doc_view(m.context)))
    &&& opt_doc_view(w.integrations) == opt_doc_view(m.integrations)
    &&& w.type_@ == "alias"@
    &&& w.channel@ == "server"@
}

fn identify_to_wire(msg: &message::Identify, now: Timestamp) -> (r: ruddermessage::Identify)
    requires
        msg.times_valid(),
        now.valid(),
    ensures
        identify_wire_of(r, *msg, now),
        r.times_valid(),
{
    ruddermessage::Identify {
        user_id: clone_opt_string(&msg.user_id),
        anonymous_id: clone_opt_string(&msg.anonymous_id),
        traits: clone_opt_doc(&msg.traits),
        original_timestamp: (match &msg.original_timestamp {
            Some(t) => Some(*t),
            None => Some(now),
        }),
        sent_at: Some(now),
        context: Some(wire_context_of(&msg.context)),
        integrations: clone_opt_doc(&msg.integrations),
        type_: String::from_str("identify"),
        channel: String::from_str("server"),
    }
}

fn track_to_wire(msg: &message::Track, now: Timestamp) -> (r: ruddermessage::Track)
    requires
        msg.times_valid(),
        now.valid(),
    ensures
        track_wire_of(r, *msg, now),
        r.times_valid(),
{
    ruddermessage::Track {
        user_id: clone_opt_string(&msg.user_id),
        anonymous_id: clone_opt_string(&msg.anonymous_id),
        event: msg.event.clone(),
        properties: clone_opt_doc(&msg.properties),
        original_timestamp: (match &msg.original_timestamp {
            Some(t) => Some(*t),
            None => Some(now),
        }),
        sent_at: Some(now),
        context: Some(wire_context_of(&msg.context)),
        integrations: clone_opt_doc(&msg.integrations),
        type_: String::from_str("track"),
        channel: String::from_str("server"),
    }
}

fn page_to_wire(msg: &message::Page, now: Timestamp) -> (r: ruddermessage::Page)
    requires
        msg.times_valid(),
        now.valid(),
    ensures
        page_wire_of(r, *msg, now),
        r.times_valid(),
{
    ruddermessage::Page {
        user_id: clone_opt_string(&msg.user_id),
        anonymous_id: clone_opt_string(&msg.anonymous_id),
        name: msg.name.clone(),
        properties: clone_opt_doc(&msg.properties),
        original_timestamp: (match &msg.original_timestamp {
            Some(t) => Some(*t),
            None => Some(now),
        }),
        sent_at: Some(now),
        context: Some(wire_context_of(&msg.context)),
        integrations: clone_opt_doc(&msg.integrations),
        type_: String::from_str("page"),
        channel: String::from_str("server"),
    }
}

fn screen_to_wire(msg: &message::Screen, now: Timestamp) -> (r: ruddermessage::Screen)
    requires
        msg.times_valid(),
        now.valid(),
    ensures
        screen_wire_of(r, *msg, now),
        r.times_valid(),
{
    ruddermessage::Screen {
        user_id: clone_opt_string(&msg.user_id),
        anonymous_id: clone_opt_string(&msg.anonymous_id),
        name: msg.name.clone(),
        properties: clone_opt_doc(&msg.properties),
        original_timestamp: (match &msg.original_timestamp {
            Some(t) => Some(*t),
            None => Some(now),
        }),
        sent_at: Some(now),
        context: Some(wire_context_of(&msg.context)),
        integrations: clone_opt_doc(&msg.integrations),
        type_: String::from_str("screen"),
        channel: String::from_str("server"),
    }
}

fn group_to_wire(msg: &message::Group, now: Timestamp) -> (r: ruddermessage::Group)
    requires
        msg.times_valid(),
        now.valid(),
    ensures
        group_wire_of(r, *msg, now),
        r.times_valid(),
{
    ruddermessage::Group {
        user_id: clone_opt_string(&msg.user_id),
        anonymous_id: clone_opt_string(&msg.anonymous_id),
        group_id: msg.group_id.clone(),
        traits: clone_opt_doc(&msg.traits),
        original_timestamp: (match &msg.original_timestamp {
            Some(t) => Some(*t),
            None => Some(now),
        }),
        sent_at: Some(now),
        context: Some(wire_context_of(&msg.context)),
        integrations: clone_opt_doc(&msg.integrations),
        type_: String::from_str("group"),
        channel: String::from_str("server"),
    }
}

fn alias_to_wire(msg: &message::Alias, now: Timestamp) -> (r: ruddermessage::Alias)
    requires
        msg.times_valid(),
        now.valid(),
    ensures
        alias_wire_of(r, *msg, now),
        r.times_valid(),
{
    ruddermessage::Alias {
        user_id: msg.user_id.clone(),
        previous_id: msg.previous_id.clone(),
        traits: clone_opt_doc(&msg.traits),
        original_timestamp: (match &msg.original_timestamp {
            Some(t) => Some(*t),
            None => Some(now),
        }),
        sent_at: Some(now),
        context: Some(wire_context_of(&msg.context)),
        integrations: clone_opt_doc(&msg.integrations),
        type_: String::from_str("alias"),
        channel: String::from_str("server"),
    }
}

/// Renders a identify event into its wire envelope: payload fields pass
/// through, timestamps are stamped, and the context gains the library
/// identity.
pub fn parse_identify(msg: &message::Identify, now: Timestamp) -> (r: Ruddermessage)
    requires
        msg.times_valid(),
        now.valid(),
    ensures
        r matches Ruddermessage::Identify(w) && identify_wire_of(w, *msg, now) && w.times_valid(),
{
    Ruddermessage::Identify(identify_to_wire(msg, now))
}

/// Renders a track event into its wire envelope: payload fields pass
/// through, timestamps are stamped, and the context gains the library
/// identity.
pub fn parse_track(msg: &message::Track, now: Timestamp) -> (r: Ruddermessage)
    requires
        msg.times_valid(),
        now.valid(),
    ensures
        r matches Ruddermessage::Track(w) && track_wire_of(w, *msg, now) && w.times_valid(),
{
    Ruddermessage::Track(track_to_wire(msg, now))
}

/// Renders a page event into its wire envelope: payload fields pass
/// through, timestamps are stamped, and the context gains the library
/// identity.
pub fn parse_page(msg: &message::Page, now: Timestamp) -> (r: Ruddermessage)
    requires
        msg.times_valid(),
        now.valid(),
    ensures
        r matches Ruddermessage::Page(w) && page_wire_of(w, *msg, now) && w.times_valid(),
{
    Ruddermessage::Page(page_to_wire(msg, now))
}

/// Renders a screen event into its wire envelope: payload fields pass
/// through, timestamps are stamped, and the context gains the library
/// identity.
pub fn parse_screen(msg: &message::Screen, now: Timestamp) -> (r: Ruddermessage)
    requires
        msg.times_valid(),
        now.valid(),
    ensures
        r matches Ruddermessage::Screen(w) && screen_wire_of(w, *msg, now) && w.times_valid(),
{
    Ruddermessage::Screen(screen_to_wire(msg, now))
}

/// Renders a group event into its wire envelope: payload fields pass
/// through, timestamps are stamped, and the context gains the library
/// identity.
pub fn parse_group(msg: &message::Group, now: Timestamp) -> (r: Ruddermessage)
    requires
        msg.times_valid(),
        now.valid(),
    ensures
        r matches Ruddermessage::Group(w) && group_wire_of(w, *msg, now) && w.times_valid(),
{
    Ruddermessage::Group(group_to_wire(msg, now))
}

/// Renders a alias event into its wire envelope: payload fields pass
/// through, timestamps are stamped, and the context gains the library
/// identity.
pub fn parse_alias(msg: &message::Alias, now: Timestamp) -> (r: Ruddermessage)
    requires
        msg.times_valid(),
        now.valid(),
    ensures
        r matches Ruddermessage::Alias(w) && alias_wire_of(w, *msg, now) && w.times_valid(),
{
    Ruddermessage::Alias(alias_to_wire(msg, now))
}

/// What the wire form of a batch member holds: the member's own fields and
/// context, stamped at the submission instant.
pub open spec fn member_wire_of(
    w: ruddermessage::BatchMessage,
    m: message::BatchMessage,
    now: Timestamp,
) -> bool {
    match (w, m) {
        (ruddermessage::BatchMessage::Identify(a), message::BatchMessage::Identify(b)) => identify_wire_of(a, b, now),
        (ruddermessage::BatchMessage::Track(a), message::BatchMessage::Track(b)) => track_wire_of(a, b, now),
        (ruddermessage::BatchMessage::Page(a), message::BatchMessage::Page(b)) => page_wire_of(a, b, now),
        (ruddermessage::BatchMessage::Screen(a), message::BatchMessage::Screen(b)) => screen_wire_of(a, b, now),
        (ruddermessage::BatchMessage::Group(a), message::BatchMessage::Group(b)) => group_wire_of(a, b, now),
        (ruddermessage::BatchMessage::Alias(a), message::BatchMessage::Alias(b)) => alias_wire_of(a, b, now),
        _ => false,
    }
}

/// Renders one batch member into its wire form.
pub fn batch_message_to_wire(msg: &message::BatchMessage, now: Timestamp) -> (r:
    ruddermessage::BatchMessage)
    requires
        msg.times_valid(),
        now.valid(),
    ensures
        member_wire_of(r, *msg, now),
        r.times_valid(),
{
    match msg {
        message::BatchMessage::Identify(m) => ruddermessage::BatchMessage::Identify(identify_to_wire(m, now)),
        message::BatchMessage::Track(m) => ruddermessage::BatchMessage::Track(track_to_wire(m, now)),
        message::BatchMessage::Page(m) => ruddermessage::BatchMessage::Page(page_to_wire(m, now)),
        message::BatchMessage::Screen(m) => ruddermessage::BatchMessage::Screen(screen_to_wire(m, now)),
        message::BatchMessage::Group(m) => ruddermessage::BatchMessage::Group(group_to_wire(m, now)),
        message::BatchMessage::Alias(m) => ruddermessage::BatchMessage::Alias(alias_to_wire(m, now)),
    }
}

/// What each member of a wire-ready batch holds: its own payload fields,
/// with the batch's shared context and the batch's timestamps.
pub open spec fn batch_member_wire_of(
    w: ruddermessage::BatchMessage,
    m: message::BatchMessage,
    ctx: DocV,
    ot: Option<Timestamp>,
    now: Timestamp,
) -> bool {
    match (w, m) {
        (ruddermessage::BatchMessage::Identify(a), message::BatchMessage::Identify(b)) => {
            &&& a.user_id == b.user_id
            &&& a.anonymous_id == b.anonymous_id
            &&& opt_doc_view(a.traits) == opt_doc_view(b.traits)
            &&& a.original_timestamp == ot
            &&& a.sent_at == Some(now)
            &&& opt_doc_view(a.context) == Some(ctx)
            &&& opt_doc_view(a.integrations) == opt_doc_view(b.integrations)
            &&& a.type_@ == "identify"@
            &&& a.channel@ == "server"@
        },
        (ruddermessage::BatchMessage::Track(a), message::BatchMessage::Track(b)) => {
            &&& a.user_id == b.user_id
            &&& a.anonymous_id == b.anonymous_id
            &&& a.event == b.event
            &&& opt_doc_view(a.properties) == opt_doc_view(b.properties)
            &&& a.original_timestamp == ot
            &&& a.sent_at == Some(now)
            &&& opt_doc_view(a.context) == Some(ctx)
            &&& opt_doc_view(a.integrations) == opt_doc_view(b.integrations)
            &&& a.type_@ == "track"@
            &&& a.channel@ == "server"@
        },
        (ruddermessage::BatchMessage::Page(a), message::BatchMessage::Page(b)) => {
            &&& a.user_id == b.user_id
            &&& a.anonymous_id == b.anonymous_id
            &&& a.name == b.name
            &&& opt_doc_view(a.properties) == opt_doc_view(b.properties)
            &&& a.original_timestamp == ot
            &&& a.sent_at == Some(now)
            &&& opt_doc_view(a.context) == Some(ctx)
            &&& opt_doc_view(a.integrations) == opt_doc_view(b.integrations)
            &&& a.type_@ == "page"@
            &&& a.channel@ == "server"@
        },
        (ruddermessage::BatchMessage::Screen(a), message::BatchMessage::Screen(b)) => {
            &&& a.user_id == b.user_id
            &&& a.anonymous_id == b.anonymous_id
            &&& a.name == b.name
            &&& opt_doc_view(a.properties) == opt_doc_view(b.properties)
            &&& a.original_timestamp == ot
            &&& a.sent_at == Some(now)
            &&& opt_doc_view(a.context) == Some(ctx)
            &&& opt_doc_view(a.integrations) == opt_doc_view(b.integrations)
            &&& a.type_@ == "screen"@
            &&& a.channel@ == "server"@
        },
        (ruddermessage::BatchMessage::Group(a), message::BatchMessage::Group(b)) => {
            &&& a.user_id == b.user_id
            &&& a.anonymous_id == b.anonymous_id
            &&& a.group_id == b.group_id
            &&& opt_doc_view(a.traits) == opt_doc_view(b.traits)
            &&& a.original_timestamp == ot
            &&& a.sent_at == Some(now)
            &&& opt_doc_view(a.context) == Some(ctx)
            &&& opt_doc_view(a.integrations) == opt_doc_view(b.integrations)
            &&& a.type_@ == "group"@
            &&& a.channel@ == "server"@
        },
        (ruddermessage::BatchMessage::Alias(a), message::BatchMessage::Alias(b)) => {
            &&& a.user_id == b.user_id
            &&& a.previous_id == b.previous_id
            &&& opt_doc_view(a.traits) == opt_doc_view(b.traits)
            &&& a.original_timestamp == ot
            &&& a.sent_at == Some(now)
            &&& opt_doc_view(a.context) == Some(ctx)
            &&& opt_doc_view(a.integrations) == opt_doc_view(b.integrations)
            &&& a.type_@ == "alias"@
            &&& a.channel@ == "server"@
        },
        _ => false,
    }
}

/// Renders a caller-assembled batch into its wire envelope. The batch's
/// merged context and its timestamps are stamped on the envelope and on
/// every member alike.
pub fn parse_batch(msg: &message::Batch, now: Timestamp) -> (r: Ruddermessage)
    requires
        message::time_valid(msg.original_timestamp),
        now.valid(),
    ensures
        r matches Ruddermessage::Batch(wb) && ({
            let ctx = spec_wire_context(opt_doc_view(msg.context));
            let ot = wire_original_timestamp(msg.original_timestamp, now);
            &&& wb.batch@.len() == msg.batch@.len()
            &&& forall|i: int|
                0 <= i < wb.batch@.len() ==> batch_member_wire_of(
                    #[trigger] wb.batch@[i],
                    msg.batch@[i],
                    ctx,
                    ot,
                    now,
                )
            &&& opt_doc_view(wb.context) == Some(ctx)
            &&& opt_doc_view(wb.integrations) == opt_doc_view(msg.integrations)
            &&& wb.original_timestamp == ot
            &&& wb.sent_at == Some(now)
            &&& wb.type_@ == "batch"@
            &&& wb.times_valid()
        }),
{
    let ghost ctx = spec_wire_context(opt_doc_view(msg.context));
    let ghost ot = wire_original_timestamp(msg.original_timestamp, now);
    let modified_context = wire_context_of(&msg.context);
    let original_timestamp = match &msg.original_timestamp {
        Some(t) => Some(*t),
        None => Some(now),
    };
    let mut batch: Vec<ruddermessage::BatchMessage> = Vec::new();
    let n = msg.batch.len();
    let mut i: usize = 0;
    while i < n
        invariant
            i <= n,
            n == msg.batch@.len(),
            batch@.len() == i,
            modified_context@ == ctx,
            original_timestamp == ot,
            now.valid(),
            original_timestamp matches Some(t) ==> t.valid(),
            forall|q: int|
                0 <= q < i ==> batch_member_wire_of(#[trigger] batch@[q], msg.batch@[q], ctx, ot, now),
            forall|q: int| 0 <= q < i ==> (#[trigger] batch@[q]).times_valid(),
        decreases n - i,
    {
        let member = match &msg.batch[i] {
                message::BatchMessage::Identify(m) => ruddermessage::BatchMessage::Identify(ruddermessage::Identify {
                    user_id: clone_opt_string(&m.user_id),
                    anonymous_id: clone_opt_string(&m.anonymous_id),
                    traits: clone_opt_doc(&m.traits),
                    original_timestamp,
                    sent_at: Some(now),
                    context: Some(modified_context.deep_clone()),
                    integrations: clone_opt_doc(&m.integrations),
                    type_: String::from_str("identify"),
                    channel: String::from_str("server"),
                }),
                message::BatchMessage::Track(m) => ruddermessage::BatchMessage::Track(ruddermessage::Track {
                    user_id: clone_opt_string(&m.user_id),
                    anonymous_id: clone_opt_string(&m.anonymous_id),
                    event: m.event.clone(),
                    properties: clone_opt_doc(&m.properties),
                    original_timestamp,
                    sent_at: Some(now),
                    context: Some(modified_context.deep_clone()),
                    integrations: clone_opt_doc(&m.integrations),
                    type_: String::from_str("track"),
                    channel: String::from_str("server"),
                }),
                message::BatchMessage::Page(m) => ruddermessage::BatchMessage::Page(ruddermessage::Page {
                    user_id: clone_opt_string(&m.user_id),
                    anonymous_id: clone_opt_string(&m.anonymous_id),
                    name: m.name.clone(),
                    properties: clone_opt_doc(&m.properties),
                    original_timestamp,
                    sent_at: Some(now),
                    context: Some(modified_context.deep_clone()),
                    integrations: clone_opt_doc(&m.integrations),
                    type_: String::from_str("page"),
                    channel: String::from_str("server"),
                }),
                message::BatchMessage::Screen(m) => ruddermessage::BatchMessage::Screen(ruddermessage::Screen {
                    user_id: clone_opt_string(&m.user_id),
                    anonymous_id: clone_opt_string(&m.anonymous_id),
                    name: m.name.clone(),
                    properties: clone_opt_doc(&m.properties),
                    original_timestamp,
                    sent_at: Some(now),
                    context: Some(modified_context.deep_clone()),
                    integrations: clone_opt_doc(&m.integrations),
                    type_: String::from_str("screen"),
                    channel: String::from_str("server"),
                }),
                message::BatchMessage::Group(m) => ruddermessage::BatchMessage::Group(ruddermessage::Group {
                    user_id: clone_opt_string(&m.user_id),
                    anonymous_id: clone_opt_string(&m.anonymous_id),
                    group_id: m.group_id.clone(),
                    traits: clone_opt_doc(&m.traits),
                    original_timestamp,
                    sent_at: Some(now),
                    context: Some(modified_context.deep_clone()),
                    integrations: clone_opt_doc(&m.integrations),
                    type_: String::from_str("group"),
                    channel: String::from_str("server"),
                }),
                message::BatchMessage::Alias(m) => ruddermessage::BatchMessage::Alias(ruddermessage::Alias {
                    user_id: m.user_id.clone(),
                    previous_id: m.previous_id.clone(),
                    traits: clone_opt_doc(&m.traits),
                    original_timestamp,
                    sent_at: Some(now),
                    context: Some(modified_context.deep_clone()),
                    integrations: clone_opt_doc(&m.integrations),
                    type_: String::from_str("alias"),
                    channel: String::from_str("server"),
                }),
        };
        batch.push(member);
        i += 1;
    }
    Ruddermessage::Batch(
        ruddermessage::Batch {
            batch,
            context: Some(modified_context),
            integrations: clone_opt_doc(&msg.integrations),
            original_timestamp,
            sent_at: Some(now),
            type_: String::from_str("batch"),
        },
    )
}

} // verus!
