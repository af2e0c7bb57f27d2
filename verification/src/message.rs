use crate::document::{docv_wf, has_member, merge, merge_docv, Doc, DocV};
use crate::errors::Error;
use crate::fields::{
    opt_doc_member, opt_doc_view, opt_str_member, opt_time_member, push_doc, push_opt_doc,
    push_opt_str, push_opt_time, push_str, str_member,
};
use crate::json::{ser_docv, write_doc};
use crate::timestamp::Timestamp;
use vstd::prelude::*;
use vstd::string::StringExecFns;

verus! {

/// An identify event.
#[derive(Debug, PartialEq)]
pub struct Identify {
    pub user_id: Option<String>,
    pub anonymous_id: Option<String>,
    pub traits: Option<Doc>,
    pub original_timestamp: Option<Timestamp>,
    pub context: Option<Doc>,
    pub integrations: Option<Doc>,
}

/// A track event.
#[derive(Debug, PartialEq)]
pub struct Track {
    pub user_id: Option<String>,
    pub anonymous_id: Option<String>,
    pub event: String,
    pub properties: Option<Doc>,
    pub original_timestamp: Option<Timestamp>,
    pub context: Option<Doc>,
    pub integrations: Option<Doc>,
}

/// A page event.
#[derive(Debug, PartialEq)]
pub struct Page {
    pub user_id: Option<String>,
    pub anonymous_id: Option<String>,
    pub name: String,
    pub properties: Option<Doc>,
    pub original_timestamp: Option<Timestamp>,
    pub context: Option<Doc>,
    pub integrations: Option<Doc>,
}

/// A screen event.
#[derive(Debug, PartialEq)]
pub struct Screen {
    pub user_id: Option<String>,
    pub anonymous_id: Option<String>,
    pub name: String,
    pub properties: Option<Doc>,
    pub original_timestamp: Option<Timestamp>,
    pub context: Option<Doc>,
    pub integrations: Option<Doc>,
}

/// A group event.
#[derive(Debug, PartialEq)]
pub struct Group {
    pub user_id: Option<String>,
    pub anonymous_id: Option<String>,
    pub group_id: String,
    pub traits: Option<Doc>,
    pub original_timestamp: Option<Timestamp>,
    pub context: Option<Doc>,
    pub integrations: Option<Doc>,
}

/// An alias event. Both identifiers are required; there is no anonymous-id
/// fallback.
#[derive(Debug, PartialEq)]
pub struct Alias {
    pub user_id: String,
    pub previous_id: String,
    pub traits: Option<Doc>,
    pub original_timestamp: Option<Timestamp>,
    pub context: Option<Doc>,
    pub integrations: Option<Doc>,
}

/// A batch of events, sharing one context document.
#[derive(Debug, PartialEq)]
pub struct Batch {
    pub batch: Vec<BatchMessage>,
    pub context: Option<Doc>,
    pub integrations: Option<Doc>,
    pub original_timestamp: Option<Timestamp>,
}

/// Every value that may be handed to the library for sending.
#[derive(Debug, PartialEq)]
pub enum Message {
    Identify(Identify),
    Track(Track),
    Page(Page),
    Screen(Screen),
    Group(Group),
    Alias(Alias),
    Batch(Batch),
}

/// The events that may be placed inside a batch (batches do not nest).
#[derive(Debug, PartialEq)]
pub enum BatchMessage {
    Identify(Identify),
    Track(Track),
    Page(Page),
    Screen(Screen),
    Group(Group),
    Alias(Alias),
}

pub open spec fn time_valid(t: Option<Timestamp>) -> bool {
    t matches Some(ts) ==> ts.valid()
}

/// A caller-supplied context must be a key-value document.
pub open spec fn context_object(c: Option<Doc>) -> bool {
    c matches Some(d) ==> d@ is Obj
}

pub open spec fn context_wf(c: Option<Doc>) -> bool {
    c matches Some(d) ==> docv_wf(d@)
}

/// The reserved-keyword rule: a caller-supplied context must not carry the
/// library-owned top-level key.
pub open spec fn context_reserved_free(c: Option<Doc>) -> bool {
    c matches Some(d) ==> !has_member(d@->Obj_0, "library"@)
}

/// The field members of each event's rendered object, in wire order.
pub open spec fn identify_fields(m: Identify) -> Seq<(Seq<char>, DocV)> {
    opt_str_member("userId"@, m.user_id) + opt_str_member("anonymousId"@, m.anonymous_id)
        + opt_doc_member("traits"@, opt_doc_view(m.traits)) + opt_time_member(
        "originalTimestamp"@,
        m.original_timestamp,
    ) + opt_doc_member("context"@, opt_doc_view(m.context)) + opt_doc_member(
        "integrations"@,
        opt_doc_view(m.integrations),
    )
}

pub open spec fn track_fields(m: Track) -> Seq<(Seq<char>, DocV)> {
    opt_str_member("userId"@, m.user_id) + opt_str_member("anonymousId"@, m.anonymous_id)
        + str_member("event"@, m.event@) + opt_doc_member(
        "properties"@,
        opt_doc_view(m.properties),
    ) + opt_time_member("originalTimestamp"@, m.original_timestamp) + opt_doc_member(
        "context"@,
        opt_doc_view(m.context),
    ) + opt_doc_member("integrations"@, opt_doc_view(m.integrations))
}

pub open spec fn page_fields(m: Page) -> Seq<(Seq<char>, DocV)> {
    opt_str_member("userId"@, m.user_id) + opt_str_member("anonymousId"@, m.anonymous_id)
        + str_member("name"@, m.name@) + opt_doc_member("properties"@, opt_doc_view(m.properties))
        + opt_time_member("originalTimestamp"@, m.original_timestamp) + opt_doc_member(
        "context"@,
        opt_doc_view(m.context),
    ) + opt_doc_member("integrations"@, opt_doc_view(m.integrations))
}

pub open spec fn screen_fields(m: Screen) -> Seq<(Seq<char>, DocV)> {
    opt_str_member("userId"@, m.user_id) + opt_str_member("anonymousId"@, m.anonymous_id)
        + str_member("name"@, m.name@) + opt_doc_member("properties"@, opt_doc_view(m.properties))
        + opt_time_member("originalTimestamp"@, m.original_timestamp) + opt_doc_member(
        "context"@,
        opt_doc_view(m.context),
    ) + opt_doc_member("integrations"@, opt_doc_view(m.integrations))
}

pub open spec fn group_fields(m: Group) -> Seq<(Seq<char>, DocV)> {
    opt_str_member("userId"@, m.user_id) + opt_str_member("anonymousId"@, m.anonymous_id)
        + str_member("groupId"@, m.group_id@) + opt_doc_member("traits"@, opt_doc_view(m.traits))
        + opt_time_member("originalTimestamp"@, m.original_timestamp) + opt_doc_member(
        "context"@,
        opt_doc_view(m.context),
    ) + opt_doc_member("integrations"@, opt_doc_view(m.integrations))
}

pub open spec fn alias_fields(m: Alias) -> Seq<(Seq<char>, DocV)> {
    str_member("userId"@, m.user_id@) + str_member("previousId"@, m.previous_id@)
        + opt_doc_member("traits"@, opt_doc_view(m.traits)) + opt_time_member(
        "originalTimestamp"@,
        m.original_timestamp,
    ) + opt_doc_member("context"@, opt_doc_view(m.context)) + opt_doc_member(
        "integrations"@,
        opt_doc_view(m.integrations),
    )
}

impl Identify {
    pub open spec fn times_valid(self) -> bool {
        time_valid(self.original_timestamp)
    }

    fn push_fields(&self, v: &mut Vec<(String, Doc)>)
        requires
            self.times_valid(),
        ensures
            crate::document::members_view(final(v)@) == crate::document::members_view(old(v)@)
                + identify_fields(*self),
    {
        push_opt_str(v, "userId", &self.user_id);
        push_opt_str(v, "anonymousId", &self.anonymous_id);
        push_opt_doc(v, "traits", &self.traits);
        push_opt_time(v, "originalTimestamp", &self.original_timestamp);
        push_opt_doc(v, "context", &self.context);
        push_opt_doc(v, "integrations", &self.integrations);
        proof {
            assert(crate::document::members_view(v@) =~= crate::document::members_view(old(v)@)
                + identify_fields(*self));
        }
    }
}

impl Track {
    pub open spec fn times_valid(self) -> bool {
        time_valid(self.original_timestamp)
    }

    fn push_fields(&self, v: &mut Vec<(String, Doc)>)
        requires
            self.times_valid(),
        ensures
            crate::document::members_view(final(v)@) == crate::document::members_view(old(v)@)
                + track_fields(*self),
    {
        push_opt_str(v, "userId", &self.user_id);
        push_opt_str(v, "anonymousId", &self.anonymous_id);
        push_str(v, "event", &self.event);
        push_opt_doc(v, "properties", &self.properties);
        push_opt_time(v, "originalTimestamp", &self.original_timestamp);
        push_opt_doc(v, "context", &self.context);
        push_opt_doc(v, "integrations", &self.integrations);
        proof {
            assert(crate::document::members_view(v@) =~= crate::document::members_view(old(v)@)
                + track_fields(*self));
        }
    }
}

impl Page {
    pub open spec fn times_valid(self) -> bool {
        time_valid(self.original_timestamp)
    }

    fn push_fields(&self, v: &mut Vec<(String, Doc)>)
        requires
            self.times_valid(),
        ensures
            crate::document::members_view(final(v)@) == crate::document::members_view(old(v)@)
                + page_fields(*self),
    {
        push_opt_str(v, "userId", &self.user_id);
        push_opt_str(v, "anonymousId", &self.anonymous_id);
        push_str(v, "name", &self.name);
        push_opt_doc(v, "properties", &self.properties);
        push_opt_time(v, "originalTimestamp", &self.original_timestamp);
        push_opt_doc(v, "context", &self.context);
        push_opt_doc(v, "integrations", &self.integrations);
        proof {
            assert(crate::document::members_view(v@) =~= crate::document::members_view(old(v)@)
                + page_fields(*self));
        }
    }
}

impl Screen {
    pub open spec fn times_valid(self) -> bool {
        time_valid(self.original_timestamp)
    }

    fn push_fields(&self, v: &mut Vec<(String, Doc)>)
        requires
            self.times_valid(),
        ensures
            crate::document::members_view(final(v)@) == crate::document::members_view(old(v)@)
                + screen_fields(*self),
    {
        push_opt_str(v, "userId", &self.user_id);
        push_opt_str(v, "anonymousId", &self.anonymous_id);
        push_str(v, "name", &self.name);
        push_opt_doc(v, "properties", &self.properties);
        push_opt_time(v, "originalTimestamp", &self.original_timestamp);
        push_opt_doc(v, "context", &self.context);
        push_opt_doc(v, "integrations", &self.integrations);
        proof {
            assert(crate::document::members_view(v@) =~= crate::document::members_view(old(v)@)
                + screen_fields(*self));
        }
    }
}

impl Group {
    pub open spec fn times_valid(self) -> bool {
        time_valid(self.original_timestamp)
    }

    fn push_fields(&self, v: &mut Vec<(String, Doc)>)
        requires
            self.times_valid(),
        ensures
            crate::document::members_view(final(v)@) == crate::document::members_view(old(v)@)
                + group_fields(*self),
    {
        push_opt_str(v, "userId", &self.user_id);
        push_opt_str(v, "anonymousId", &self.anonymous_id);
        push_str(v, "groupId", &self.group_id);
        push_opt_doc(v, "traits", &self.traits);
        push_opt_time(v, "originalTimestamp", &self.original_timestamp);
        push_opt_doc(v, "context", &self.context);
        push_opt_doc(v, "integrations", &self.integrations);
        proof {
            assert(crate::document::members_view(v@) =~= crate::document::members_view(old(v)@)
                + group_fields(*self));
        }
    }
}

impl Alias {
    pub open spec fn times_valid(self) -> bool {
        time_valid(self.original_timestamp)
    }

    fn push_fields(&self, v: &mut Vec<(String, Doc)>)
        requires
            self.times_valid(),
        ensures
            crate::document::members_view(final(v)@) == crate::document::members_view(old(v)@)
                + alias_fields(*self),
    {
        push_str(v, "userId", &self.user_id);
        push_str(v, "previousId", &self.previous_id);
        push_opt_doc(v, "traits", &self.traits);
        push_opt_time(v, "originalTimestamp", &self.original_timestamp);
        push_opt_doc(v, "context", &self.context);
        push_opt_doc(v, "integrations", &self.integrations);
        proof {
            assert(crate::document::members_view(v@) =~= crate::document::members_view(old(v)@)
                + alias_fields(*self));
        }
    }
}

/// The rendered objects of the members of a batch, each led by its `type`
/// discriminator.
pub open spec fn batch_member_docs(ms: Seq<BatchMessage>) -> Seq<DocV>
    decreases ms,
{
    if ms.len() == 0 {
        Seq::empty()
    } else {
        seq![ms.first().member_doc()] + batch_member_docs(ms.drop_first())
    }
}

proof fn lemma_batch_member_docs_snoc(ms: Seq<BatchMessage>, m: BatchMessage)
    ensures
        batch_member_docs(ms.push(m)) == batch_member_docs(ms).push(m.member_doc()),
    decreases ms.len(),
{
    let full = ms.push(m);
    if ms.len() == 0 {
        assert(full.first() == m);
        assert(full.drop_first() =~= ms);
        assert(batch_member_docs(full) =~= batch_member_docs(ms).push(m.member_doc()));
    } else {
        assert(full.first() == ms.first());
        assert(full.drop_first() =~= ms.drop_first().push(m));
        lemma_batch_member_docs_snoc(ms.drop_first(), m);
        assert(batch_member_docs(full) =~= batch_member_docs(ms).push(m.member_doc()));
    }
}

/// The rendered object of a batch envelope: the member array, the shared
/// context (null when absent), then the optional fields.
pub open spec fn batch_doc(b: Batch) -> DocV {
    DocV::Obj(
        seq![("batch"@, DocV::Arr(batch_member_docs(b.batch@)))] + seq![
            ("context"@, match opt_doc_view(b.context) {
                Some(c) => c,
                None => DocV::Null,
            }),
        ] + opt_doc_member("integrations"@, opt_doc_view(b.integrations)) + opt_time_member(
            "originalTimestamp"@,
            b.original_timestamp,
        ),
    )
}

impl Batch {
    pub open spec fn times_valid(self) -> bool {
        time_valid(self.original_timestamp) && (forall|i: int|
            0 <= i < self.batch@.len() ==> (#[trigger] self.batch@[i]).times_valid())
    }

    pub fn to_doc(&self) -> (r: Doc)
        requires
            self.times_valid(),
        ensures
            r@ == batch_doc(*self),
    {
        let mut arr: Vec<Doc> = Vec::new();
        let n = self.batch.len();
        let mut k: usize = 0;
        proof {
            crate::document::lemma_docs_view_len(arr@);
            assert(crate::document::docs_view(arr@) =~= batch_member_docs(self.batch@.take(0)));
        }
        while k < n
            invariant
                k <= n,
                n == self.batch@.len(),
                self.times_valid(),
                crate::document::docs_view(arr@) == batch_member_docs(self.batch@.take(k as int)),
            decreases n - k,
        {
            let d = self.batch[k].to_doc();
            proof {
                crate::document::lemma_docs_view_snoc(arr@, d);
                lemma_batch_member_docs_snoc(
                    self.batch@.take(k as int),
                    self.batch@[k as int],
                );
                assert(self.batch@.take(k as int).push(self.batch@[k as int])
                    =~= self.batch@.take(k as int + 1));
            }
            arr.push(d);
            k += 1;
        }
        proof {
            assert(self.batch@.take(n as int) =~= self.batch@);
        }
        let mut v: Vec<(String, Doc)> = Vec::new();
        proof {
            assert(crate::document::members_view(v@) =~= Seq::<(Seq<char>, DocV)>::empty());
        }
        push_doc(&mut v, "batch", Doc::Arr(arr));
        match &self.context {
            Some(c) => {
                push_doc(&mut v, "context", c.deep_clone());
            },
            None => {
                push_doc(&mut v, "context", Doc::Null);
            },
        }
        push_opt_doc(&mut v, "integrations", &self.integrations);
        push_opt_time(&mut v, "originalTimestamp", &self.original_timestamp);
        proof {
            assert(crate::document::members_view(v@) =~= batch_doc(*self)->Obj_0);
        }
        Doc::Obj(v)
    }
}

impl BatchMessage {
    /// The rendered object of a batch member: the `type` discriminator first,
    /// then the event's fields.
    pub open spec fn member_doc(self) -> DocV {
        match self {
            BatchMessage::Identify(m) => DocV::Obj(
                str_member("type"@, "identify"@) + identify_fields(m),
            ),
            BatchMessage::Track(m) => DocV::Obj(str_member("type"@, "track"@) + track_fields(m)),
            BatchMessage::Page(m) => DocV::Obj(str_member("type"@, "page"@) + page_fields(m)),
            BatchMessage::Screen(m) => DocV::Obj(str_member("type"@, "screen"@) + screen_fields(m)),
            BatchMessage::Group(m) => DocV::Obj(str_member("type"@, "group"@) + group_fields(m)),
            BatchMessage::Alias(m) => DocV::Obj(str_member("type"@, "alias"@) + alias_fields(m)),
        }
    }

    pub open spec fn times_valid(self) -> bool {
        match self {
            BatchMessage::Identify(m) => m.times_valid(),
            BatchMessage::Track(m) => m.times_valid(),
            BatchMessage::Page(m) => m.times_valid(),
            BatchMessage::Screen(m) => m.times_valid(),
            BatchMessage::Group(m) => m.times_valid(),
            BatchMessage::Alias(m) => m.times_valid(),
        }
    }

    pub fn to_doc(&self) -> (r: Doc)
        requires
            self.times_valid(),
        ensures
            r@ == self.member_doc(),
    {
        let mut v: Vec<(String, Doc)> = Vec::new();
        proof {
            assert(crate::document::members_view(v@) =~= Seq::<(Seq<char>, DocV)>::empty());
        }
        match self {
            BatchMessage::Identify(m) => {
                let tag = String::from_str("identify");
                push_str(&mut v, "type", &tag);
                m.push_fields(&mut v);
            },
            BatchMessage::Track(m) => {
                let tag = String::from_str("track");
                push_str(&mut v, "type", &tag);
                m.push_fields(&mut v);
            },
            BatchMessage::Page(m) => {
                let tag = String::from_str("page");
                push_str(&mut v, "type", &tag);
                m.push_fields(&mut v);
            },
            BatchMessage::Screen(m) => {
                let tag = String::from_str("screen");
                push_str(&mut v, "type", &tag);
                m.push_fields(&mut v);
            },
            BatchMessage::Group(m) => {
                let tag = String::from_str("group");
                push_str(&mut v, "type", &tag);
                m.push_fields(&mut v);
            },
            BatchMessage::Alias(m) => {
                let tag = String::from_str("alias");
                push_str(&mut v, "type", &tag);
                m.push_fields(&mut v);
            },
        }
        proof {
            assert(crate::document::members_view(v@) =~= self.member_doc()->Obj_0);
        }
        Doc::Obj(v)
    }
}

impl Message {
    /// The rendered object of a message sent on its own: the event's fields,
    /// with no discriminator (the route carries the kind), or the batch
    /// envelope.
    pub open spec fn doc(self) -> DocV {
        match self {
            Message::Identify(m) => DocV::Obj(identify_fields(m)),
            Message::Track(m) => DocV::Obj(track_fields(m)),
            Message::Page(m) => DocV::Obj(page_fields(m)),
            Message::Screen(m) => DocV::Obj(screen_fields(m)),
            Message::Group(m) => DocV::Obj(group_fields(m)),
            Message::Alias(m) => DocV::Obj(alias_fields(m)),
            Message::Batch(b) => batch_doc(b),
        }
    }

    pub open spec fn times_valid(self) -> bool {
        match self {
            Message::Identify(m) => m.times_valid(),
            Message::Track(m) => m.times_valid(),
            Message::Page(m) => m.times_valid(),
            Message::Screen(m) => m.times_valid(),
            Message::Group(m) => m.times_valid(),
            Message::Alias(m) => m.times_valid(),
            Message::Batch(b) => b.times_valid(),
        }
    }

    pub fn to_doc(&self) -> (r: Doc)
        requires
            self.times_valid(),
        ensures
            r@ == self.doc(),
    {
        match self {
            Message::Batch(b) => b.to_doc(),
            _ => {
                let mut v: Vec<(String, Doc)> = Vec::new();
                proof {
                    assert(crate::document::members_view(v@) =~= Seq::<
                        (Seq<char>, DocV),
                    >::empty());
                }
                match self {
                    Message::Identify(m) => m.push_fields(&mut v),
                    Message::Track(m) => m.push_fields(&mut v),
                    Message::Page(m) => m.push_fields(&mut v),
                    Message::Screen(m) => m.push_fields(&mut v),
                    Message::Group(m) => m.push_fields(&mut v),
                    Message::Alias(m) => m.push_fields(&mut v),
                    Message::Batch(_) => {
                        proof {
                            assert(false);
                        }
                    },
                }
                proof {
                    assert(crate::document::members_view(v@) =~= self.doc()->Obj_0);
                }
                Doc::Obj(v)
            },
        }
    }

    /// The canonical JSON rendering of the message.
    pub fn to_json(&self) -> (r: Vec<u8>)
        requires
            self.times_valid(),
        ensures
            r@ == ser_docv(self.doc()),
    {
        let d = self.to_doc();
        let mut out: Vec<u8> = Vec::new();
        write_doc(&mut out, &d);
        proof {
            assert(out@ =~= ser_docv(self.doc()));
        }
        out
    }

    /// Whether the identity rule holds: every kind but alias and batch must
    /// carry a user id or an anonymous id.
    pub open spec fn identity_ok(self) -> bool {
        match self {
            Message::Identify(m) => m.user_id is Some || m.anonymous_id is Some,
            Message::Track(m) => m.user_id is Some || m.anonymous_id is Some,
            Message::Page(m) => m.user_id is Some || m.anonymous_id is Some,
            Message::Screen(m) => m.user_id is Some || m.anonymous_id is Some,
            Message::Group(m) => m.user_id is Some || m.anonymous_id is Some,
            Message::Alias(_) => true,
            Message::Batch(_) => true,
        }
    }

    pub open spec fn spec_context(self) -> Option<Doc> {
        match self {
            Message::Identify(m) => m.context,
            Message::Track(m) => m.context,
            Message::Page(m) => m.context,
            Message::Screen(m) => m.context,
            Message::Group(m) => m.context,
            Message::Alias(m) => m.context,
            Message::Batch(b) => b.context,
        }
    }

    /// The identity rule, decided. Returns `Ok` exactly on the events whose
    /// kind needs no identity or that carry one.
    pub fn assert_valid_user_id_or_anonymous_id(&self) -> (r: Result<(), Error>)
        ensures
            r is Ok <==> self.identity_ok(),
            r matches Err(e) ==> (e matches Error::InvalidRequest(m) && m@
                == "Either of user_id or anonymous_id is required"@),
    {
        let ok = match self {
            Message::Identify(m) => m.user_id.is_some() || m.anonymous_id.is_some(),
            Message::Track(m) => m.user_id.is_some() || m.anonymous_id.is_some(),
            Message::Page(m) => m.user_id.is_some() || m.anonymous_id.is_some(),
            Message::Screen(m) => m.user_id.is_some() || m.anonymous_id.is_some(),
            Message::Group(m) => m.user_id.is_some() || m.anonymous_id.is_some(),
            Message::Alias(_) => true,
            Message::Batch(_) => true,
        };
        if ok {
            Ok(())
        } else {
            Err(
                Error::InvalidRequest(
                    String::from_str("Either of user_id or anonymous_id is required"),
                ),
            )
        }
    }

    /// The reserved-keyword rule, decided on the caller-supplied context.
    pub fn assert_valid_context(&self) -> (r: Result<(), Error>)
        requires
            context_object(self.spec_context()),
        ensures
            r is Ok <==> context_reserved_free(self.spec_context()),
            r matches Err(e) ==> (e matches Error::InvalidRequest(m) && m@
                == "Reserve keyword present in context"@),
    {
        let ctx = match self {
            Message::Identify(m) => &m.context,
            Message::Track(m) => &m.context,
            Message::Page(m) => &m.context,
            Message::Screen(m) => &m.context,
            Message::Group(m) => &m.context,
            Message::Alias(m) => &m.context,
            Message::Batch(b) => &b.context,
        };
        let conflict = match ctx {
            Some(c) => c.has_key("library"),
            None => false,
        };
        if conflict {
            Err(Error::InvalidRequest(String::from_str("Reserve keyword present in context")))
        } else {
            Ok(())
        }
    }
}
/// How a weaker, batch-level shared context combines with an event's own
/// context: the event's context is the overlay and wins on conflicts; an
/// event without a context takes the shared document as it is.
pub open spec fn spec_apply_common_context(own: Option<DocV>, common: DocV) -> DocV {
    match own {
        None => common,
        Some(o) => merge_docv(common, o),
    }
}

fn apply_common_context(own: &Option<Doc>, common: &Doc) -> (r: Doc)
    ensures
        r@ == spec_apply_common_context(opt_doc_view(*own), common@),
        (docv_wf(common@) && (own matches Some(o) ==> docv_wf(o@))) ==> docv_wf(r@),
{
    match own {
        None => common.deep_clone(),
        Some(o) => merge(common, o),
    }
}

impl BatchMessage {
    pub open spec fn spec_context(self) -> Option<Doc> {
        match self {
            BatchMessage::Identify(m) => m.context,
            BatchMessage::Track(m) => m.context,
            BatchMessage::Page(m) => m.context,
            BatchMessage::Screen(m) => m.context,
            BatchMessage::Group(m) => m.context,
            BatchMessage::Alias(m) => m.context,
        }
    }

    pub open spec fn spec_original_timestamp(self) -> Option<Timestamp> {
        match self {
            BatchMessage::Identify(m) => m.original_timestamp,
            BatchMessage::Track(m) => m.original_timestamp,
            BatchMessage::Page(m) => m.original_timestamp,
            BatchMessage::Screen(m) => m.original_timestamp,
            BatchMessage::Group(m) => m.original_timestamp,
            BatchMessage::Alias(m) => m.original_timestamp,
        }
    }

    /// The identity rule for batch members: alias aside, every member must
    /// carry a user id or an anonymous id.
    pub open spec fn identity_ok(self) -> bool {
        match self {
            BatchMessage::Identify(m) => m.user_id is Some || m.anonymous_id is Some,
            BatchMessage::Track(m) => m.user_id is Some || m.anonymous_id is Some,
            BatchMessage::Page(m) => m.user_id is Some || m.anonymous_id is Some,
            BatchMessage::Screen(m) => m.user_id is Some || m.anonymous_id is Some,
            BatchMessage::Group(m) => m.user_id is Some || m.anonymous_id is Some,
            BatchMessage::Alias(_) => true,
        }
    }

    /// Agreement on every field but the context; document-valued fields are
    /// compared by their models.
    pub open spec fn same_except_context(self, other: BatchMessage) -> bool {
        match (self, other) {
            (BatchMessage::Identify(a), BatchMessage::Identify(b)) => a.user_id == b.user_id
                && a.anonymous_id == b.anonymous_id && opt_doc_view(a.traits) == opt_doc_view(
                b.traits,
            ) && a.original_timestamp == b.original_timestamp && opt_doc_view(a.integrations)
                == opt_doc_view(b.integrations),
            (BatchMessage::Track(a), BatchMessage::Track(b)) => a.user_id == b.user_id
                && a.anonymous_id == b.anonymous_id && a.event == b.event && opt_doc_view(
                a.properties,
            ) == opt_doc_view(b.properties) && a.original_timestamp == b.original_timestamp
                && opt_doc_view(a.integrations) == opt_doc_view(b.integrations),
            (BatchMessage::Page(a), BatchMessage::Page(b)) => a.user_id == b.user_id
                && a.anonymous_id == b.anonymous_id && a.name == b.name && opt_doc_view(
                a.properties,
            ) == opt_doc_view(b.properties) && a.original_timestamp == b.original_timestamp
                && opt_doc_view(a.integrations) == opt_doc_view(b.integrations),
            (BatchMessage::Screen(a), BatchMessage::Screen(b)) => a.user_id == b.user_id
                && a.anonymous_id == b.anonymous_id && a.name == b.name && opt_doc_view(
                a.properties,
            ) == opt_doc_view(b.properties) && a.original_timestamp == b.original_timestamp
                && opt_doc_view(a.integrations) == opt_doc_view(b.integrations),
            (BatchMessage::Group(a), BatchMessage::Group(b)) => a.user_id == b.user_id
                && a.anonymous_id == b.anonymous_id && a.group_id == b.group_id && opt_doc_view(
                a.traits,
            ) == opt_doc_view(b.traits) && a.original_timestamp == b.original_timestamp
                && opt_doc_view(a.integrations) == opt_doc_view(b.integrations),
            (BatchMessage::Alias(a), BatchMessage::Alias(b)) => a.user_id == b.user_id
                && a.previous_id == b.previous_id && opt_doc_view(a.traits) == opt_doc_view(
                b.traits,
            ) && a.original_timestamp == b.original_timestamp && opt_doc_view(a.integrations)
                == opt_doc_view(b.integrations),
            _ => false,
        }
    }

    /// The identity rule, decided.
    pub fn has_identity(&self) -> (r: bool)
        ensures
            r == self.identity_ok(),
    {
        match self {
            BatchMessage::Identify(m) => m.user_id.is_some() || m.anonymous_id.is_some(),
            BatchMessage::Track(m) => m.user_id.is_some() || m.anonymous_id.is_some(),
            BatchMessage::Page(m) => m.user_id.is_some() || m.anonymous_id.is_some(),
            BatchMessage::Screen(m) => m.user_id.is_some() || m.anonymous_id.is_some(),
            BatchMessage::Group(m) => m.user_id.is_some() || m.anonymous_id.is_some(),
            BatchMessage::Alias(_) => true,
        }
    }

    /// The original context overlaid by `new_context`, which wins on
    /// conflicts; an event without a context takes `new_context` as it is.
    pub fn get_merged_context(old_context: &Option<Doc>, new_context: &Doc) -> (r: Option<Doc>)
        ensures
            r matches Some(d) && d@ == merge_docv(
                (match *old_context {
                    Some(c) => c@,
                    None => DocV::Null,
                }),
                new_context@,
            ),
    {
        match old_context {
            Some(c) => Some(merge(c, new_context)),
            None => Some(new_context.deep_clone()),
        }
    }

    /// Combine a batch-level shared context into this event: the event's own
    /// context stays the stronger overlay, so its entries win on conflicts.
    pub fn update_context_with(&mut self, context: Doc)
        ensures
            final(self).same_except_context(*old(self)),
            opt_doc_view(final(self).spec_context()) == Some(
                spec_apply_common_context(opt_doc_view(old(self).spec_context()), context@),
            ),
            (docv_wf(context@) && context_wf(old(self).spec_context())) ==> context_wf(
                final(self).spec_context(),
            ),
    {
        match self {
            BatchMessage::Identify(m) => {
                let c = apply_common_context(&m.context, &context);
                m.context = Some(c);
            },
            BatchMessage::Track(m) => {
                let c = apply_common_context(&m.context, &context);
                m.context = Some(c);
            },
            BatchMessage::Page(m) => {
                let c = apply_common_context(&m.context, &context);
                m.context = Some(c);
            },
            BatchMessage::Screen(m) => {
                let c = apply_common_context(&m.context, &context);
                m.context = Some(c);
            },
            BatchMessage::Group(m) => {
                let c = apply_common_context(&m.context, &context);
                m.context = Some(c);
            },
            BatchMessage::Alias(m) => {
                let c = apply_common_context(&m.context, &context);
                m.context = Some(c);
            },
        }
    }
}

impl Message {
    /// The API route that carries this kind of message.
    pub fn api_path(&self) -> (r: &'static str)
        ensures
            self is Identify ==> r@ == "/v1/identify"@,
            self is Track ==> r@ == "/v1/track"@,
            self is Page ==> r@ == "/v1/page"@,
            self is Screen ==> r@ == "/v1/screen"@,
            self is Group ==> r@ == "/v1/group"@,
            self is Alias ==> r@ == "/v1/alias"@,
            self is Batch ==> r@ == "/v1/batch"@,
    {
        match self {
            Message::Identify(_) => "/v1/identify",
            Message::Track(_) => "/v1/track",
            Message::Page(_) => "/v1/page",
            Message::Screen(_) => "/v1/screen",
            Message::Group(_) => "/v1/group",
            Message::Alias(_) => "/v1/alias",
            Message::Batch(_) => "/v1/batch",
        }
    }
}

/// Law of validation idempotence: both checks are pure functions of the
/// event alone — `assert_valid_user_id_or_anonymous_id` answers exactly
/// `identity_ok` and `assert_valid_context` exactly `context_reserved_free`,
/// so validating the same event a second time gives the same result.
pub proof fn lemma_validation_idempotent(m: Message, first: bool, second: bool)
    requires
        first == m.identity_ok() && context_reserved_free(m.spec_context()),
        second == m.identity_ok() && context_reserved_free(m.spec_context()),
    ensures
        first == second,
{
}

} // verus!
