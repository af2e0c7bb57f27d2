use crate::document::{docv_wf, Doc, DocV};
use crate::errors::Error;
use crate::fields::opt_doc_view;
use crate::json::ser_docv;
use crate::message;
use crate::message::{
    context_object, context_reserved_free, context_wf, spec_apply_common_context,
};
use crate::ruddermessage;
use crate::ruddermessage::Ruddermessage;
use crate::timestamp::{rfc3339_short_plain, Timestamp};
use crate::utils::{
    batch_message_to_wire, check_reserved_keywords_conflict, clone_opt_doc, clone_opt_string,
    member_wire_of,
};
use vstd::prelude::*;
use vstd::string::StringExecFns;

verus! {

/// The per-message ceiling: an event whose rendered form is larger can never
/// be sent.
pub const MAX_MESSAGE_SIZE: usize = 32768;

/// The per-batch ceiling on the accumulated rendered sizes, one separator
/// byte per member included.
pub const MAX_BATCH_SIZE: usize = 524288;

/// The summed rendered sizes of a run of wire-ready members.
pub open spec fn total_wire_size(ms: Seq<ruddermessage::BatchMessage>) -> int
    decreases ms,
{
    if ms.len() == 0 {
        0
    } else {
        ser_docv(ms.first().member_doc()).len() + total_wire_size(ms.drop_first())
    }
}

proof fn lemma_total_wire_size_snoc(ms: Seq<ruddermessage::BatchMessage>, m: ruddermessage::BatchMessage)
    ensures
        total_wire_size(ms.push(m)) == total_wire_size(ms) + ser_docv(m.member_doc()).len(),
    decreases ms.len(),
{
    let full = ms.push(m);
    if ms.len() == 0 {
        assert(full.first() == m);
        assert(full.drop_first() =~= ms);
    } else {
        assert(full.first() == ms.first());
        assert(full.drop_first() =~= ms.drop_first().push(m));
        lemma_total_wire_size_snoc(ms.drop_first(), m);
    }
}

/// The context an accepted member ends up with: its own where there is no
/// shared context, else the shared document overlaid by its own.
pub open spec fn effective_context(own: Option<DocV>, shared: Option<DocV>) -> Option<DocV> {
    match shared {
        None => own,
        Some(c) => Some(spec_apply_common_context(own, c)),
    }
}

fn merged_context(shared: &Option<Doc>, own: &Option<Doc>) -> (r: Option<Doc>)
    ensures
        opt_doc_view(r) == effective_context(opt_doc_view(*own), opt_doc_view(*shared)),
        (context_wf(*shared) && context_wf(*own)) ==> (r matches Some(d) ==> docv_wf(d@)),
        shared is None && own is None ==> r is None,
{
    match shared {
        None => clone_opt_doc(own),
        Some(c) => {
            let merged = match own {
                None => c.deep_clone(),
                Some(o) => crate::document::merge(c, o),
            };
            Some(merged)
        },
    }
}

/// A batcher accepts events into an internal buffer of wire-ready members
/// and reports when the buffer must be flushed. Created empty, fed through
/// [`Batcher::push`], consumed exactly once by [`Batcher::into_message`].
pub struct Batcher {
    pub buf: Vec<ruddermessage::BatchMessage>,
    pub byte_count: usize,
    pub context: Option<Doc>,
}

impl Batcher {
    /// The accounting the batcher maintains: the byte count equals the summed
    /// rendered size of the buffered members plus one separator byte each,
    /// and never exceeds the batch ceiling.
    pub open spec fn wf(self) -> bool {
        &&& self.byte_count as int == self.buf@.len() + total_wire_size(self.buf@)
        &&& self.byte_count <= MAX_BATCH_SIZE
        &&& context_object(self.context)
        &&& context_wf(self.context)
        &&& forall|i: int| 0 <= i < self.buf@.len() ==> (#[trigger] self.buf@[i]).times_valid()
    }

    /// Construct a new, empty batcher. The optional `context` is overlaid
    /// under every accepted event's own context and stamped on the batch.
    pub fn new(context: Option<Doc>) -> (r: Batcher)
        requires
            context_object(context),
            context_wf(context),
        ensures
            r.wf(),
            r.buf@.len() == 0,
            r.byte_count == 0,
            r.context == context,
    {
        let b = Batcher { buf: Vec::new(), byte_count: 0, context };
        proof {
            assert(total_wire_size(b.buf@) == 0);
        }
        b
    }

    /// The event as the batcher will render it: the shared context merged
    /// under its own, every other field as it stands.
    pub fn updated_message_with_common_context(
        context: &Option<Doc>,
        msg: &message::BatchMessage,
    ) -> (r: message::BatchMessage)
        ensures
            r.same_except_context(*msg),
            opt_doc_view(r.spec_context()) == effective_context(
                opt_doc_view(msg.spec_context()),
                opt_doc_view(*context),
            ),
            (context_wf(*context) && context_wf(msg.spec_context())) ==> context_wf(
                r.spec_context(),
            ),
            r.times_valid() == msg.times_valid(),
    {
        match msg {
            message::BatchMessage::Identify(m) => {
                let new_context = merged_context(context, &m.context);
                message::BatchMessage::Identify(message::Identify {
                    user_id: clone_opt_string(&m.user_id),
                    anonymous_id: clone_opt_string(&m.anonymous_id),
                    traits: clone_opt_doc(&m.traits),
                    original_timestamp: m.original_timestamp,
                    context: new_context,
                    integrations: clone_opt_doc(&m.integrations),
                })
            },
            message::BatchMessage::Track(m) => {
                let new_context = merged_context(context, &m.context);
                message::BatchMessage::Track(message::Track {
                    user_id: clone_opt_string(&m.user_id),
                    anonymous_id: clone_opt_string(&m.anonymous_id),
                    event: m.event.clone(),
                    properties: clone_opt_doc(&m.properties),
                    original_timestamp: m.original_timestamp,
                    context: new_context,
                    integrations: clone_opt_doc(&m.integrations),
                })
            },
            message::BatchMessage::Page(m) => {
                let new_context = merged_context(context, &m.context);
                message::BatchMessage::Page(message::Page {
                    user_id: clone_opt_string(&m.user_id),
                    anonymous_id: clone_opt_string(&m.anonymous_id),
                    name: m.name.clone(),
                    properties: clone_opt_doc(&m.properties),
                    original_timestamp: m.original_timestamp,
                    context: new_context,
                    integrations: clone_opt_doc(&m.integrations),
                })
            },
            message::BatchMessage::Screen(m) => {
                let new_context = merged_context(context, &m.context);
                message::BatchMessage::Screen(message::Screen {
                    user_id: clone_opt_string(&m.user_id),
                    anonymous_id: clone_opt_string(&m.anonymous_id),
                    name: m.name.clone(),
                    properties: clone_opt_doc(&m.properties),
                    original_timestamp: m.original_timestamp,
                    context: new_context,
                    integrations: clone_opt_doc(&m.integrations),
                })
            },
            message::BatchMessage::Group(m) => {
                let new_context = merged_context(context, &m.context);
                message::BatchMessage::Group(message::Group {
                    user_id: clone_opt_string(&m.user_id),
                    anonymous_id: clone_opt_string(&m.anonymous_id),
                    group_id: m.group_id.clone(),
                    traits: clone_opt_doc(&m.traits),
                    original_timestamp: m.original_timestamp,
                    context: new_context,
                    integrations: clone_opt_doc(&m.integrations),
                })
            },
            message::BatchMessage::Alias(m) => {
                let new_context = merged_context(context, &m.context);
                message::BatchMessage::Alias(message::Alias {
                    user_id: m.user_id.clone(),
                    previous_id: m.previous_id.clone(),
                    traits: clone_opt_doc(&m.traits),
                    original_timestamp: m.original_timestamp,
                    context: new_context,
                    integrations: clone_opt_doc(&m.integrations),
                })
            },
        }
    }

    /// The rendered size in bytes of a wire-ready member.
    pub fn get_size_of_message(msg: &ruddermessage::BatchMessage) -> (r: usize)
        requires
            msg.times_valid(),
        ensures
            r == ser_docv(msg.member_doc()).len(),
            msg.times_short_plain(),
    {
        msg.wire_size()
    }

    /// The per-message ceiling, decided.
    pub fn assert_message_size_before_push(size: usize) -> (r: Result<(), Error>)
        ensures
            r is Ok <==> size <= MAX_MESSAGE_SIZE,
            r matches Err(e) ==> (e matches Error::MessageTooLarge(m) && m@
                == "Message too large"@),
    {
        if size > MAX_MESSAGE_SIZE {
            Err(Error::MessageTooLarge(String::from_str("Message too large")))
        } else {
            Ok(())
        }
    }

    /// The reserved-keyword rule on the shared context, decided.
    pub fn assert_no_reserved_keywords_in_context(context: &Option<Doc>) -> (r: Result<(), Error>)
        requires
            context_object(*context),
        ensures
            r is Ok <==> context_reserved_free(*context),
            r matches Err(e) ==> (e matches Error::InvalidRequest(m) && m@
                == "Reserve keyword present in context"@),
    {
        let conflict = match context {
            Some(c) => check_reserved_keywords_conflict(c),
            None => false,
        };
        if conflict {
            Err(Error::InvalidRequest(String::from_str("Reserve keyword present in context")))
        } else {
            Ok(())
        }
    }

    /// Push an event into the batcher.
    ///
    /// `Ok(None)`: the event was validated, rendered wire-ready and
    /// absorbed. `Ok(Some(event))`: the buffer would overflow the batch
    /// ceiling; the event comes back unconsumed and the batcher is untouched
    /// (finalize this batch, then retry against a fresh one). `Err(..)`: the
    /// event broke a validation rule or the per-message ceiling; the batcher
    /// is untouched.
    pub fn push(&mut self, msg: message::BatchMessage, now: Timestamp) -> (r: Result<
        Option<message::BatchMessage>,
        Error,
    >)
        requires
            old(self).wf(),
            msg.times_valid(),
            now.valid(),
            context_object(msg.spec_context()),
            context_wf(msg.spec_context()),
        ensures
            final(self).wf(),
            final(self).context == old(self).context,
            !(r matches Ok(None)) ==> *final(self) == *old(self),
            !context_reserved_free(old(self).context) ==> (r matches Err(e) && e matches
                Error::InvalidRequest(m) && m@ == "Reserve keyword present in context"@),
            context_reserved_free(old(self).context) && !msg.identity_ok() ==> (r matches Err(e)
                && e matches Error::InvalidRequest(m) && m@
                == "Either of user_id or anonymous_id is required"@),
            context_reserved_free(old(self).context) && msg.identity_ok()
                && !context_reserved_free(msg.spec_context()) ==> (r matches Err(e) && e matches
                Error::InvalidRequest(m) && m@ == "Reserve keyword present in context"@),
            context_reserved_free(old(self).context) && msg.identity_ok()
                && context_reserved_free(msg.spec_context()) ==> rfc3339_short_plain(
                now.millis as int,
            ),
            context_reserved_free(old(self).context) && msg.identity_ok()
                && context_reserved_free(msg.spec_context()) ==> (
            msg.spec_original_timestamp() matches Some(ts) ==> rfc3339_short_plain(
                ts.millis as int,
            )),
            context_reserved_free(old(self).context) && msg.identity_ok()
                && context_reserved_free(msg.spec_context()) ==> (exists|
                w: ruddermessage::BatchMessage,
                merged: message::BatchMessage,
            |
                #![trigger member_wire_of(w, merged, now)]
                {
                    let size = ser_docv(w.member_doc()).len() as int;
                    &&& merged.same_except_context(msg)
                    &&& opt_doc_view(merged.spec_context()) == effective_context(
                        opt_doc_view(msg.spec_context()),
                        opt_doc_view(old(self).context),
                    )
                    &&& member_wire_of(w, merged, now)
                    &&& (size > MAX_MESSAGE_SIZE as int <==> (r matches Err(e) && e matches
                        Error::MessageTooLarge(t) && t@ == "Message too large"@))
                    &&& (size <= MAX_MESSAGE_SIZE as int && old(self).byte_count as int + size + 1
                        > MAX_BATCH_SIZE as int <==> r == Ok::<
                        Option<message::BatchMessage>,
                        Error,
                    >(Some(msg)))
                    &&& (size <= MAX_MESSAGE_SIZE as int && old(self).byte_count as int + size + 1
                        <= MAX_BATCH_SIZE as int <==> r is Ok && (r matches Ok(o) && o is None))
                    &&& (r matches Ok(o) && o is None ==> final(self).buf@ == old(self).buf@.push(
                        w,
                    ) && final(self).byte_count as int == old(self).byte_count as int + size + 1)
                }),
    {
        let shared_check = Batcher::assert_no_reserved_keywords_in_context(&self.context);
        match shared_check {
            Err(e) => {
                return Err(e);
            },
            Ok(()) => {},
        }
        if !msg.has_identity() {
            return Err(
                Error::InvalidRequest(
                    String::from_str("Either of user_id or anonymous_id is required"),
                ),
            );
        }
        let own_conflict = match &msg {
            message::BatchMessage::Identify(m) => ctx_conflict(&m.context),
            message::BatchMessage::Track(m) => ctx_conflict(&m.context),
            message::BatchMessage::Page(m) => ctx_conflict(&m.context),
            message::BatchMessage::Screen(m) => ctx_conflict(&m.context),
            message::BatchMessage::Group(m) => ctx_conflict(&m.context),
            message::BatchMessage::Alias(m) => ctx_conflict(&m.context),
        };
        if own_conflict {
            return Err(
                Error::InvalidRequest(String::from_str("Reserve keyword present in context")),
            );
        }
        let merged = Batcher::updated_message_with_common_context(&self.context, &msg);
        let w = batch_message_to_wire(&merged, now);
        let size = Batcher::get_size_of_message(&w);
        if size > MAX_MESSAGE_SIZE {
            return Err(Error::MessageTooLarge(String::from_str("Message too large")));
        }
        let projected = self.byte_count + size + 1;
        if projected > MAX_BATCH_SIZE {
            return Ok(Some(msg));
        }
        self.byte_count = projected;
        let ghost buf0 = self.buf@;
        self.buf.push(w);
        proof {
            lemma_total_wire_size_snoc(buf0, w);
        }
        Ok(None)
    }

    /// Consumes this batcher into a wire-ready batch envelope carrying the
    /// buffered members, the shared context, and a fresh timestamp pair
    /// stamped at finalize time. The batcher cannot be used afterwards.
    pub fn into_message(self, now: Timestamp) -> (r: Ruddermessage)
        requires
            self.wf(),
            now.valid(),
        ensures
            r matches Ruddermessage::Batch(wb) && {
                &&& wb.batch@ == self.buf@
                &&& wb.context == self.context
                &&& wb.integrations is None
                &&& wb.original_timestamp == Some(now)
                &&& wb.sent_at == Some(now)
                &&& wb.type_@ == "batch"@
                &&& wb.times_valid()
            },
    {
        Ruddermessage::Batch(
            ruddermessage::Batch {
                batch: self.buf,
                context: self.context,
                integrations: None,
                original_timestamp: Some(now),
                sent_at: Some(now),
                type_: String::from_str("batch"),
            },
        )
    }
}

/// Law of size accounting: however a well-formed batcher was produced, its
/// byte count equals the summed rendered size of its buffered members plus
/// one separator byte per member, and rejected or refused events have left
/// no trace in it.
pub proof fn lemma_byte_count_accounts(b: Batcher)
    requires
        b.wf(),
    ensures
        b.byte_count as int == b.buf@.len() + total_wire_size(b.buf@),
        b.byte_count <= MAX_BATCH_SIZE,
{
}

fn ctx_conflict(c: &Option<Doc>) -> (r: bool)
    requires
        context_object(*c),
    ensures
        r == !context_reserved_free(*c),
{
    match c {
        Some(d) => check_reserved_keywords_conflict(d),
        None => false,
    }
}

} // verus!
