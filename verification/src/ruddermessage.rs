use crate::document::{Doc, DocV};
use crate::fields::{
    opt_doc_member, opt_doc_view, opt_str_member, push_doc, push_opt_doc, push_opt_str, push_str,
    push_time, str_member, time_member,
};
use crate::json::{ser_docv, write_doc};
use crate::timestamp::{rfc3339_short_plain, Timestamp};
use vstd::prelude::*;

verus! {

/// The wire-ready form of an identify event.
#[derive(Debug, PartialEq)]
pub struct Identify {
    pub user_id: Option<String>,
    pub anonymous_id: Option<String>,
    pub traits: Option<Doc>,
    pub original_timestamp: Option<Timestamp>,
    pub sent_at: Option<Timestamp>,
    pub context: Option<Doc>,
    pub integrations: Option<Doc>,
    pub type_: String,
    pub channel: String,
}

/// The wire-ready form of a track event.
#[derive(Debug, PartialEq)]
pub struct Track {
    pub user_id: Option<String>,
    pub anonymous_id: Option<String>,
    pub event: String,
    pub properties: Option<Doc>,
    pub original_timestamp: Option<Timestamp>,
    pub sent_at: Option<Timestamp>,
    pub context: Option<Doc>,
    pub integrations: Option<Doc>,
    pub type_: String,
    pub channel: String,
}

/// The wire-ready form of a page event.
#[derive(Debug, PartialEq)]
pub struct Page {
    pub user_id: Option<String>,
    pub anonymous_id: Option<String>,
    pub name: String,
    pub properties: Option<Doc>,
    pub original_timestamp: Option<Timestamp>,
    pub sent_at: Option<Timestamp>,
    pub context: Option<Doc>,
    pub integrations: Option<Doc>,
    pub type_: String,
    pub channel: String,
}

/// The wire-ready form of a screen event.
#[derive(Debug, PartialEq)]
pub struct Screen {
    pub user_id: Option<String>,
    pub anonymous_id: Option<String>,
    pub name: String,
    pub properties: Option<Doc>,
    pub original_timestamp: Option<Timestamp>,
    pub sent_at: Option<Timestamp>,
    pub context: Option<Doc>,
    pub integrations: Option<Doc>,
    pub type_: String,
    pub channel: String,
}

/// The wire-ready form of a group event.
#[derive(Debug, PartialEq)]
pub struct Group {
    pub user_id: Option<String>,
    pub anonymous_id: Option<String>,
    pub group_id: String,
    pub traits: Option<Doc>,
    pub original_timestamp: Option<Timestamp>,
    pub sent_at: Option<Timestamp>,
    pub context: Option<Doc>,
    pub integrations: Option<Doc>,
    pub type_: String,
    pub channel: String,
}

/// The wire-ready form of an alias event.
#[derive(Debug, PartialEq)]
pub struct Alias {
    pub user_id: String,
    pub previous_id: String,
    pub traits: Option<Doc>,
    pub original_timestamp: Option<Timestamp>,
    pub sent_at: Option<Timestamp>,
    pub context: Option<Doc>,
    pub integrations: Option<Doc>,
    pub type_: String,
    pub channel: String,
}

/// The wire-ready form of a batch envelope.
#[derive(Debug, PartialEq)]
pub struct Batch {
    pub batch: Vec<BatchMessage>,
    pub context: Option<Doc>,
    pub integrations: Option<Doc>,
    pub original_timestamp: Option<Timestamp>,
    pub sent_at: Option<Timestamp>,
    pub type_: String,
}

/// Every wire-ready value that may be submitted to the endpoint.
#[derive(Debug, PartialEq)]
pub enum Ruddermessage {
    Identify(Identify),
    Track(Track),
    Page(Page),
    Screen(Screen),
    Group(Group),
    Alias(Alias),
    Batch(Batch),
}

/// The wire-ready events a batch may hold; each carries its own `type`
/// discriminator field.
#[derive(Debug, PartialEq)]
pub enum BatchMessage {
    Identify(Identify),
    Track(Track),
    Page(Page),
    Screen(Screen),
    Group(Group),
    Alias(Alias),
}

pub open spec fn wire_time_valid(t: Option<Timestamp>) -> bool {
    t matches Some(ts) ==> ts.valid()
}

pub open spec fn identify_wire_fields(m: Identify) -> Seq<(Seq<char>, DocV)> {
    opt_str_member("userId"@, m.user_id) + opt_str_member("anonymousId"@, m.anonymous_id)
        + opt_doc_member("traits"@, opt_doc_view(m.traits)) + time_member(
        "originalTimestamp"@,
        m.original_timestamp,
    ) + time_member("sentAt"@, m.sent_at) + opt_doc_member("context"@, opt_doc_view(m.context))
        + opt_doc_member("integrations"@, opt_doc_view(m.integrations)) + str_member(
        "type"@,
        m.type_@,
    ) + str_member("channel"@, m.channel@)
}

pub open spec fn track_wire_fields(m: Track) -> Seq<(Seq<char>, DocV)> {
    opt_str_member("userId"@, m.user_id) + opt_str_member("anonymousId"@, m.anonymous_id)
        + str_member("event"@, m.event@) + opt_doc_member(
        "properties"@,
        opt_doc_view(m.properties),
    ) + time_member("originalTimestamp"@, m.original_timestamp) + time_member("sentAt"@, m.sent_at)
        + opt_doc_member("context"@, opt_doc_view(m.context)) + opt_doc_member(
        "integrations"@,
        opt_doc_view(m.integrations),
    ) + str_member("type"@, m.type_@) + str_member("channel"@, m.channel@)
}

pub open spec fn page_wire_fields(m: Page) -> Seq<(Seq<char>, DocV)> {
    opt_str_member("userId"@, m.user_id) + opt_str_member("anonymousId"@, m.anonymous_id)
        + str_member("name"@, m.name@) + opt_doc_member("properties"@, opt_doc_view(m.properties))
        + time_member("originalTimestamp"@, m.original_timestamp) + time_member("sentAt"@, m.sent_at)
        + opt_doc_member("context"@, opt_doc_view(m.context)) + opt_doc_member(
        "integrations"@,
        opt_doc_view(m.integrations),
    ) + str_member("type"@, m.type_@) + str_member("channel"@, m.channel@)
}

pub open spec fn screen_wire_fields(m: Screen) -> Seq<(Seq<char>, DocV)> {
    opt_str_member("userId"@, m.user_id) + opt_str_member("anonymousId"@, m.anonymous_id)
        + str_member("name"@, m.name@) + opt_doc_member("properties"@, opt_doc_view(m.properties))
        + time_member("originalTimestamp"@, m.original_timestamp) + time_member("sentAt"@, m.sent_at)
        + opt_doc_member("context"@, opt_doc_view(m.context)) + opt_doc_member(
        "integrations"@,
        opt_doc_view(m.integrations),
    ) + str_member("type"@, m.type_@) + str_member("channel"@, m.channel@)
}

pub open spec fn group_wire_fields(m: Group) -> Seq<(Seq<char>, DocV)> {
    opt_str_member("userId"@, m.user_id) + opt_str_member("anonymousId"@, m.anonymous_id)
        + str_member("groupId"@, m.group_id@) + opt_doc_member("traits"@, opt_doc_view(m.traits))
        + time_member("originalTimestamp"@, m.original_timestamp) + time_member("sentAt"@, m.sent_at)
        + opt_doc_member("context"@, opt_doc_view(m.context)) + opt_doc_member(
        "integrations"@,
        opt_doc_view(m.integrations),
    ) + str_member("type"@, m.type_@) + str_member("channel"@, m.channel@)
}

pub open spec fn alias_wire_fields(m: Alias) -> Seq<(Seq<char>, DocV)> {
    str_member("userId"@, m.user_id@) + str_member("previousId"@, m.previous_id@)
        + opt_doc_member("traits"@, opt_doc_view(m.traits)) + time_member(
        "originalTimestamp"@,
        m.original_timestamp,
    ) + time_member("sentAt"@, m.sent_at) + opt_doc_member("context"@, opt_doc_view(m.context))
        + opt_doc_member("integrations"@, opt_doc_view(m.integrations)) + str_member(
        "type"@,
        m.type_@,
    ) + str_member("channel"@, m.channel@)
}

impl Identify {
    pub open spec fn times_valid(self) -> bool {
        wire_time_valid(self.original_timestamp) && wire_time_valid(self.sent_at)
    }

    fn push_fields(&self, v: &mut Vec<(String, Doc)>)
        requires
            self.times_valid(),
        ensures
            crate::document::members_view(final(v)@) == crate::document::members_view(old(v)@)
                + identify_wire_fields(*self),
            self.original_timestamp matches Some(ts) ==> rfc3339_short_plain(ts.millis as int),
            self.sent_at matches Some(ts) ==> rfc3339_short_plain(ts.millis as int),
    {
        push_opt_str(v, "userId", &self.user_id);
        push_opt_str(v, "anonymousId", &self.anonymous_id);
        push_opt_doc(v, "traits", &self.traits);
        push_time(v, "originalTimestamp", &self.original_timestamp);
        push_time(v, "sentAt", &self.sent_at);
        push_opt_doc(v, "context", &self.context);
        push_opt_doc(v, "integrations", &self.integrations);
        push_str(v, "type", &self.type_);
        push_str(v, "channel", &self.channel);
        proof {
            assert(crate::document::members_view(v@) =~= crate::document::members_view(old(v)@)
                + identify_wire_fields(*self));
        }
    }
}

impl Track {
    pub open spec fn times_valid(self) -> bool {
        wire_time_valid(self.original_timestamp) && wire_time_valid(self.sent_at)
    }

    fn push_fields(&self, v: &mut Vec<(String, Doc)>)
        requires
            self.times_valid(),
        ensures
            crate::document::members_view(final(v)@) == crate::document::members_view(old(v)@)
                + track_wire_fields(*self),
            self.original_timestamp matches Some(ts) ==> rfc3339_short_plain(ts.millis as int),
            self.sent_at matches Some(ts) ==> rfc3339_short_plain(ts.millis as int),
    {
        push_opt_str(v, "userId", &self.user_id);
        push_opt_str(v, "anonymousId", &self.anonymous_id);
        push_str(v, "event", &self.event);
        push_opt_doc(v, "properties", &self.properties);
        push_time(v, "originalTimestamp", &self.original_timestamp);
        push_time(v, "sentAt", &self.sent_at);
        push_opt_doc(v, "context", &self.context);
        push_opt_doc(v, "integrations", &self.integrations);
        push_str(v, "type", &self.type_);
        push_str(v, "channel", &self.channel);
        proof {
            assert(crate::document::members_view(v@) =~= crate::document::members_view(old(v)@)
                + track_wire_fields(*self));
        }
    }
}

impl Page {
    pub open spec fn times_valid(self) -> bool {
        wire_time_valid(self.original_timestamp) && wire_time_valid(self.sent_at)
    }

    fn push_fields(&self, v: &mut Vec<(String, Doc)>)
        requires
            self.times_valid(),
        ensures
            crate::document::members_view(final(v)@) == crate::document::members_view(old(v)@)
                + page_wire_fields(*self),
            self.original_timestamp matches Some(ts) ==> rfc3339_short_plain(ts.millis as int),
            self.sent_at matches Some(ts) ==> rfc3339_short_plain(ts.millis as int),
    {
        push_opt_str(v, "userId", &self.user_id);
        push_opt_str(v, "anonymousId", &self.anonymous_id);
        push_str(v, "name", &self.name);
        push_opt_doc(v, "properties", &self.properties);
        push_time(v, "originalTimestamp", &self.original_timestamp);
        push_time(v, "sentAt", &self.sent_at);
        push_opt_doc(v, "context", &self.context);
        push_opt_doc(v, "integrations", &self.integrations);
        push_str(v, "type", &self.type_);
        push_str(v, "channel", &self.channel);
        proof {
            assert(crate::document::members_view(v@) =~= crate::document::members_view(old(v)@)
                + page_wire_fields(*self));
        }
    }
}

impl Screen {
    pub open spec fn times_valid(self) -> bool {
        wire_time_valid(self.original_timestamp) && wire_time_valid(self.sent_at)
    }

    fn push_fields(&self, v: &mut Vec<(String, Doc)>)
        requires
            self.times_valid(),
        ensures
            crate::document::members_view(final(v)@) == crate::document::members_view(old(v)@)
                + screen_wire_fields(*self),
            self.original_timestamp matches Some(ts) ==> rfc3339_short_plain(ts.millis as int),
            self.sent_at matches Some(ts) ==> rfc3339_short_plain(ts.millis as int),
    {
        push_opt_str(v, "userId", &self.user_id);
        push_opt_str(v, "anonymousId", &self.anonymous_id);
        push_str(v, "name", &self.name);
        push_opt_doc(v, "properties", &self.properties);
        push_time(v, "originalTimestamp", &self.original_timestamp);
        push_time(v, "sentAt", &self.sent_at);
        push_opt_doc(v, "context", &self.context);
        push_opt_doc(v, "integrations", &self.integrations);
        push_str(v, "type", &self.type_);
        push_str(v, "channel", &self.channel);
        proof {
            assert(crate::document::members_view(v@) =~= crate::document::members_view(old(v)@)
                + screen_wire_fields(*self));
        }
    }
}

impl Group {
    pub open spec fn times_valid(self) -> bool {
        wire_time_valid(self.original_timestamp) && wire_time_valid(self.sent_at)
    }

    fn push_fields(&self, v: &mut Vec<(String, Doc)>)
        requires
            self.times_valid(),
        ensures
            crate::document::members_view(final(v)@) == crate::document::members_view(old(v)@)
                + group_wire_fields(*self),
            self.original_timestamp matches Some(ts) ==> rfc3339_short_plain(ts.millis as int),
            self.sent_at matches Some(ts) ==> rfc3339_short_plain(ts.millis as int),
    {
        push_opt_str(v, "userId", &self.user_id);
        push_opt_str(v, "anonymousId", &self.anonymous_id);
        push_str(v, "groupId", &self.group_id);
        push_opt_doc(v, "traits", &self.traits);
        push_time(v, "originalTimestamp", &self.original_timestamp);
        push_time(v, "sentAt", &self.sent_at);
        push_opt_doc(v, "context", &self.context);
        push_opt_doc(v, "integrations", &self.integrations);
        push_str(v, "type", &self.type_);
        push_str(v, "channel", &self.channel);
        proof {
            assert(crate::document::members_view(v@) =~= crate::document::members_view(old(v)@)
                + group_wire_fields(*self));
        }
    }
}

impl Alias {
    pub open spec fn times_valid(self) -> bool {
        wire_time_valid(self.original_timestamp) && wire_time_valid(self.sent_at)
    }

    fn push_fields(&self, v: &mut Vec<(String, Doc)>)
        requires
            self.times_valid(),
        ensures
            crate::document::members_view(final(v)@) == crate::document::members_view(old(v)@)
                + alias_wire_fields(*self),
            self.original_timestamp matches Some(ts) ==> rfc3339_short_plain(ts.millis as int),
            self.sent_at matches Some(ts) ==> rfc3339_short_plain(ts.millis as int),
    {
        push_str(v, "userId", &self.user_id);
        push_str(v, "previousId", &self.previous_id);
        push_opt_doc(v, "traits", &self.traits);
        push_time(v, "originalTimestamp", &self.original_timestamp);
        push_time(v, "sentAt", &self.sent_at);
        push_opt_doc(v, "context", &self.context);
        push_opt_doc(v, "integrations", &self.integrations);
        push_str(v, "type", &self.type_);
        push_str(v, "channel", &self.channel);
        proof {
            assert(crate::document::members_view(v@) =~= crate::document::members_view(old(v)@)
                + alias_wire_fields(*self));
        }
    }
}

impl BatchMessage {
    /// The rendered object of a wire-ready batch member; its `type` field is
    /// the discriminator.
    pub open spec fn member_doc(self) -> DocV {
        match self {
            BatchMessage::Identify(m) => DocV::Obj(identify_wire_fields(m)),
            BatchMessage::Track(m) => DocV::Obj(track_wire_fields(m)),
            BatchMessage::Page(m) => DocV::Obj(page_wire_fields(m)),
            BatchMessage::Screen(m) => DocV::Obj(screen_wire_fields(m)),
            BatchMessage::Group(m) => DocV::Obj(group_wire_fields(m)),
            BatchMessage::Alias(m) => DocV::Obj(alias_wire_fields(m)),
        }
    }

    pub open spec fn times_valid(self) -> bool {
        match self {
            BatchMessage::Identify(m) => m.times_valid(),
            BatchMessage::Track(m) => m.times_valid(),
            BatchMessage::Page(m) => m.times_valid(),
            BatchMessage::Screen(m) => m.times_valid(),
            BatchMessage::Group(m) => m.times_valid(),
            BatchMessage::Alias(m) => m.times_valid(),
        }
    }

    /// The member's instants all render short and plain (see
    /// [`rfc3339_short_plain`]); rendering the member establishes this.
    pub open spec fn times_short_plain(self) -> bool {
        match self {
            BatchMessage::Identify(m) => (m.original_timestamp matches Some(ts)
                ==> rfc3339_short_plain(ts.millis as int)) && (m.sent_at matches Some(ts)
                ==> rfc3339_short_plain(ts.millis as int)),
            BatchMessage::Track(m) => (m.original_timestamp matches Some(ts)
                ==> rfc3339_short_plain(ts.millis as int)) && (m.sent_at matches Some(ts)
                ==> rfc3339_short_plain(ts.millis as int)),
            BatchMessage::Page(m) => (m.original_timestamp matches Some(ts)
                ==> rfc3339_short_plain(ts.millis as int)) && (m.sent_at matches Some(ts)
                ==> rfc3339_short_plain(ts.millis as int)),
            BatchMessage::Screen(m) => (m.original_timestamp matches Some(ts)
                ==> rfc3339_short_plain(ts.millis as int)) && (m.sent_at matches Some(ts)
                ==> rfc3339_short_plain(ts.millis as int)),
            BatchMessage::Group(m) => (m.original_timestamp matches Some(ts)
                ==> rfc3339_short_plain(ts.millis as int)) && (m.sent_at matches Some(ts)
                ==> rfc3339_short_plain(ts.millis as int)),
            BatchMessage::Alias(m) => (m.original_timestamp matches Some(ts)
                ==> rfc3339_short_plain(ts.millis as int)) && (m.sent_at matches Some(ts)
                ==> rfc3339_short_plain(ts.millis as int)),
        }
    }

    pub fn to_doc(&self) -> (r: Doc)
        requires
            self.times_valid(),
        ensures
            r@ == self.member_doc(),
            self.times_short_plain(),
    {
        let mut v: Vec<(String, Doc)> = Vec::new();
        proof {
            assert(crate::document::members_view(v@) =~= Seq::<(Seq<char>, DocV)>::empty());
        }
        match self {
            BatchMessage::Identify(m) => m.push_fields(&mut v),
            BatchMessage::Track(m) => m.push_fields(&mut v),
            BatchMessage::Page(m) => m.push_fields(&mut v),
            BatchMessage::Screen(m) => m.push_fields(&mut v),
            BatchMessage::Group(m) => m.push_fields(&mut v),
            BatchMessage::Alias(m) => m.push_fields(&mut v),
        }
        proof {
            assert(crate::document::members_view(v@) =~= self.member_doc()->Obj_0);
        }
        Doc::Obj(v)
    }

    /// The serialized size in bytes of this member's rendered form.
    pub fn wire_size(&self) -> (r: usize)
        requires
            self.times_valid(),
        ensures
            r == ser_docv(self.member_doc()).len(),
            self.times_short_plain(),
    {
        let d = self.to_doc();
        let mut out: Vec<u8> = Vec::new();
        write_doc(&mut out, &d);
        proof {
            assert(out@ =~= ser_docv(self.member_doc()));
        }
        out.len()
    }
}

pub open spec fn wire_member_docs(ms: Seq<BatchMessage>) -> Seq<DocV>
    decreases ms,
{
    if ms.len() == 0 {
        Seq::empty()
    } else {
        seq![ms.first().member_doc()] + wire_member_docs(ms.drop_first())
    }
}

proof fn lemma_wire_member_docs_snoc(ms: Seq<BatchMessage>, m: BatchMessage)
    ensures
        wire_member_docs(ms.push(m)) == wire_member_docs(ms).push(m.member_doc()),
    decreases ms.len(),
{
    let full = ms.push(m);
    if ms.len() == 0 {
        assert(full.first() == m);
        assert(full.drop_first() =~= ms);
        assert(wire_member_docs(full) =~= wire_member_docs(ms).push(m.member_doc()));
    } else {
        assert(full.first() == ms.first());
        assert(full.drop_first() =~= ms.drop_first().push(m));
        lemma_wire_member_docs_snoc(ms.drop_first(), m);
        assert(wire_member_docs(full) =~= wire_member_docs(ms).push(m.member_doc()));
    }
}

/// The rendered object of a wire-ready batch envelope.
pub open spec fn batch_wire_doc(b: Batch) -> DocV {
    DocV::Obj(
        seq![("batch"@, DocV::Arr(wire_member_docs(b.batch@)))] + opt_doc_member(
            "context"@,
            opt_doc_view(b.context),
        ) + opt_doc_member("integrations"@, opt_doc_view(b.integrations)) + time_member(
            "originalTimestamp"@,
            b.original_timestamp,
        ) + time_member("sentAt"@, b.sent_at) + str_member("type"@, b.type_@),
    )
}

impl Batch {
    pub open spec fn times_valid(self) -> bool {
        wire_time_valid(self.original_timestamp) && wire_time_valid(self.sent_at) && (forall|
            i: int,
        |
            0 <= i < self.batch@.len() ==> (#[trigger] self.batch@[i]).times_valid())
    }

    pub fn to_doc(&self) -> (r: Doc)
        requires
            self.times_valid(),
        ensures
            r@ == batch_wire_doc(*self),
    {
        let mut arr: Vec<Doc> = Vec::new();
        let n = self.batch.len();
        let mut k: usize = 0;
        proof {
            assert(crate::document::docs_view(arr@) =~= wire_member_docs(self.batch@.take(0)));
        }
        while k < n
            invariant
                k <= n,
                n == self.batch@.len(),
                self.times_valid(),
                crate::document::docs_view(arr@) == wire_member_docs(self.batch@.take(k as int)),
            decreases n - k,
        {
            let d = self.batch[k].to_doc();
            proof {
                crate::document::lemma_docs_view_snoc(arr@, d);
                lemma_wire_member_docs_snoc(self.batch@.take(k as int), self.batch@[k as int]);
                assert(self.batch@.take(k as int).push(self.batch@[k as int]) =~= self.batch@.take(
                    k as int + 1,
                ));
            }
            arr.push(d);
            k += 1;
        }
        proof {
            assert(self.batch@.take(n as int) =~= self.batch@);
        }
        let mut v: Vec<(String, Doc)> = Vec::new();
        proof {
            assert(crate::document::members_view(v@) =~= Seq::<(Seq<char>, DocV)>::empty());
        }
        push_doc(&mut v, "batch", Doc::Arr(arr));
        push_opt_doc(&mut v, "context", &self.context);
        push_opt_doc(&mut v, "integrations", &self.integrations);
        push_time(&mut v, "originalTimestamp", &self.original_timestamp);
        push_time(&mut v, "sentAt", &self.sent_at);
        push_str(&mut v, "type", &self.type_);
        proof {
            assert(crate::document::members_view(v@) =~= batch_wire_doc(*self)->Obj_0);
        }
        Doc::Obj(v)
    }
}

impl Ruddermessage {
    pub open spec fn doc(self) -> DocV {
        match self {
            Ruddermessage::Identify(m) => DocV::Obj(identify_wire_fields(m)),
            Ruddermessage::Track(m) => DocV::Obj(track_wire_fields(m)),
            Ruddermessage::Page(m) => DocV::Obj(page_wire_fields(m)),
            Ruddermessage::Screen(m) => DocV::Obj(screen_wire_fields(m)),
            Ruddermessage::Group(m) => DocV::Obj(group_wire_fields(m)),
            Ruddermessage::Alias(m) => DocV::Obj(alias_wire_fields(m)),
            Ruddermessage::Batch(b) => batch_wire_doc(b),
        }
    }

    pub open spec fn times_valid(self) -> bool {
        match self {
            Ruddermessage::Identify(m) => m.times_valid(),
            Ruddermessage::Track(m) => m.times_valid(),
            Ruddermessage::Page(m) => m.times_valid(),
            Ruddermessage::Screen(m) => m.times_valid(),
            Ruddermessage::Group(m) => m.times_valid(),
            Ruddermessage::Alias(m) => m.times_valid(),
            Ruddermessage::Batch(b) => b.times_valid(),
        }
    }

    pub fn to_doc(&self) -> (r: Doc)
        requires
            self.times_valid(),
        ensures
            r@ == self.doc(),
    {
        match self {
            Ruddermessage::Batch(b) => b.to_doc(),
            _ => {
                let mut v: Vec<(String, Doc)> = Vec::new();
                proof {
                    assert(crate::document::members_view(v@) =~= Seq::<
                        (Seq<char>, DocV),
                    >::empty());
                }
                match self {
                    Ruddermessage::Identify(m) => m.push_fields(&mut v),
                    Ruddermessage::Track(m) => m.push_fields(&mut v),
                    Ruddermessage::Page(m) => m.push_fields(&mut v),
                    Ruddermessage::Screen(m) => m.push_fields(&mut v),
                    Ruddermessage::Group(m) => m.push_fields(&mut v),
                    Ruddermessage::Alias(m) => m.push_fields(&mut v),
                    Ruddermessage::Batch(_) => {
                        proof {
                            assert(false);
                        }
                    },
                }
                proof {
                    assert(crate::document::members_view(v@) =~= self.doc()->Obj_0);
                }
                Doc::Obj(v)
            },
        }
    }

    /// The canonical JSON rendering of the wire-ready message: these are the
    /// bytes submitted to the endpoint.
    pub fn to_json(&self) -> (r: Vec<u8>)
        requires
            self.times_valid(),
        ensures
            r@ == ser_docv(self.doc()),
    {
        let d = self.to_doc();
        let mut out: Vec<u8> = Vec::new();
        write_doc(&mut out, &d);
        proof {
            assert(out@ =~= ser_docv(self.doc()));
        }
        out
    }
}

} // verus!
