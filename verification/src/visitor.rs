//! The event visitor: accumulates one event's typed fields into an
//! optional identifier, an optional primary message and the remaining
//! fields, then renders the flat record the native facility accepts.

use vstd::prelude::*;

use crate::severity::{category_of, category_of_spec, Category, Level};
use crate::text::{
    bool_text, check_id_name, collapse_backslashes, collapse_spec, debug_render_str, dec_int,
    dec_nat, is_id_name, render_bool, render_i128, render_u128, str_debug, str_eq,
};

verus! {

/// One structured event's accumulated state, ready to be rendered.
pub struct EventVisitor {
    /// Severity of the event being visited.
    pub level: Level,
    /// Identifier used when the event supplies none of its own.
    pub default_id: Option<u32>,
    /// Identifier supplied by the event under the reserved field name.
    pub id: Option<u32>,
    /// The value of the field named exactly "message".
    pub message: Option<String>,
    /// The rendered ancestry trail, when the event occurred in a span.
    pub trail: Option<String>,
    /// Every other field, as name and rendered text, names unique.
    pub fields: Vec<(String, String)>,
}

/// The record handed to the native write call: a numeric identifier,
/// one of the three native categories, and the flat message body.
#[derive(Debug)]
pub struct RenderedRecord {
    pub id: u32,
    pub category: Category,
    pub body: String,
}

/// The extra fields as pairs of character sequences.
pub open spec fn fields_view_of(fields: Seq<(String, String)>) -> Seq<(Seq<char>, Seq<char>)> {
    fields.map_values(|p: (String, String)| (p.0@, p.1@))
}

/// Inserting under a name: replaces the value in place when the name
/// is already present, appends a new pair otherwise.
pub open spec fn spec_insert(
    fs: Seq<(Seq<char>, Seq<char>)>,
    k: Seq<char>,
    v: Seq<char>,
) -> Seq<(Seq<char>, Seq<char>)>
    decreases fs.len(),
{
    if fs.len() == 0 {
        seq![(k, v)]
    } else if fs[0].0 == k {
        seq![(k, v)] + fs.drop_first()
    } else {
        seq![fs[0]] + spec_insert(fs.drop_first(), k, v)
    }
}

/// The primary-message block: the message and a blank line, or nothing.
pub open spec fn message_block(m: Option<Seq<char>>) -> Seq<char> {
    match m {
        Some(t) => t + "\n\n"@,
        None => Seq::empty(),
    }
}

/// The ancestry line, or nothing when the event had no span context.
pub open spec fn trail_block(t: Option<Seq<char>>) -> Seq<char> {
    match t {
        Some(s) => "source: "@ + s + "\n"@,
        None => Seq::empty(),
    }
}

/// One extra-field line: the name, the normalized value, a newline.
pub open spec fn field_line(k: Seq<char>, v: Seq<char>) -> Seq<char> {
    k + ": "@ + collapse_spec(v) + "\n"@
}

/// The extra-field lines, one per field, in insertion order.
pub open spec fn fields_block(fs: Seq<(Seq<char>, Seq<char>)>) -> Seq<char>
    decreases fs.len(),
{
    if fs.len() == 0 {
        Seq::empty()
    } else {
        fields_block(fs.drop_last()) + field_line(fs.last().0, fs.last().1)
    }
}

/// What recording a rendered text under a name does to the visitor:
/// the text becomes the primary message when the name is exactly
/// "message", an extra field otherwise; nothing else moves.
pub open spec fn debug_recorded(
    pre: EventVisitor,
    post: EventVisitor,
    name: Seq<char>,
    text: Seq<char>,
) -> bool {
    if name == "message"@ {
        &&& post.message_view() == Some(text)
        &&& post.fields_view() == pre.fields_view()
    } else {
        &&& post.message == pre.message
        &&& post.fields_view() == spec_insert(pre.fields_view(), name, text)
    }
}

impl EventVisitor {
    /// The extra fields as pairs of character sequences.
    pub open spec fn fields_view(self) -> Seq<(Seq<char>, Seq<char>)> {
        fields_view_of(self.fields@)
    }

    /// The primary message's characters, when one was recorded.
    pub open spec fn message_view(self) -> Option<Seq<char>> {
        match self.message {
            Some(m) => Some(m@),
            None => None,
        }
    }

    /// The ancestry trail's characters, when the event had one.
    pub open spec fn trail_view(self) -> Option<Seq<char>> {
        match self.trail {
            Some(t) => Some(t@),
            None => None,
        }
    }

    /// Field names are unique, and the reserved primary-message name
    /// never appears among the extra fields.
    pub open spec fn wf(self) -> bool {
        &&& forall|i: int, j: int|
            0 <= i < j < self.fields@.len() ==> self.fields@[i].0@ != self.fields@[j].0@
        &&& forall|i: int| 0 <= i < self.fields@.len() ==> self.fields@[i].0@ != "message"@
    }

    /// The identifier the record carries: the event's own when it gave
    /// one, else the configured default, else zero.
    pub open spec fn resolved_id_spec(self) -> u32 {
        match self.id {
            Some(i) => i,
            None => match self.default_id {
                Some(d) => d,
                None => 0u32,
            },
        }
    }

    /// The full message body: primary-message block, then the ancestry
    /// line, then one line per extra field.
    pub open spec fn rendered_spec(self) -> Seq<char> {
        message_block(self.message_view()) + trail_block(self.trail_view()) + fields_block(
            self.fields_view(),
        )
    }

    /// A fresh visitor for one event: nothing recorded yet.
    pub fn new(level: Level, default_id: Option<u32>) -> (v: Self)
        ensures
            v.wf(),
            v.level == level,
            v.default_id == default_id,
            v.id is None,
            v.message is None,
            v.trail is None,
            v.fields_view() == Seq::<(Seq<char>, Seq<char>)>::empty(),
    {
        let v = EventVisitor {
            level,
            default_id,
            id: None,
            message: None,
            trail: None,
            fields: Vec::new(),
        };
        proof {
            assert(v.fields_view() =~= Seq::<(Seq<char>, Seq<char>)>::empty());
        }
        v
    }

    /// Records a rendered field: the primary message when the field is
    /// named exactly "message", an extra field otherwise, where a
    /// repeated name overwrites the earlier value.
    pub fn record_debug(&mut self, name: &str, rendered: String)
        requires
            old(self).wf(),
        ensures
            final(self).wf(),
            final(self).level == old(self).level,
            final(self).default_id == old(self).default_id,
            final(self).id == old(self).id,
            final(self).trail == old(self).trail,
            debug_recorded(*old(self), *final(self), name@, rendered@),
    {
        if str_eq(name, "message") {
            self.message = Some(rendered);
        } else {
            self.insert_field(name, rendered);
        }
    }

    /// Records an unsigned integer: it becomes the identifier when the
    /// field bears the reserved name and the value fits the unsigned
    /// 32-bit range; otherwise its decimal text is recorded like any
    /// other field.
    pub fn record_u64(&mut self, name: &str, value: u64)
        requires
            old(self).wf(),
        ensures
            final(self).wf(),
            final(self).level == old(self).level,
            final(self).default_id == old(self).default_id,
            final(self).trail == old(self).trail,
            is_id_name(name@) && value <= u32::MAX ==> {
                &&& final(self).id == Some(value as u32)
                &&& final(self).message == old(self).message
                &&& final(self).fields_view() == old(self).fields_view()
            },
            !(is_id_name(name@) && value <= u32::MAX) ==> {
                &&& final(self).id == old(self).id
                &&& debug_recorded(*old(self), *final(self), name@, dec_nat(value as int))
            },
    {
        if check_id_name(name) && value <= u32::MAX as u64 {
            self.id = Some(value as u32);
        } else {
            self.record_debug(name, render_u128(value as u128));
        }
    }

    /// Records a signed integer: the identifier when the field bears
    /// the reserved name and the value lies in the unsigned 32-bit
    /// range; its decimal text otherwise.
    pub fn record_i64(&mut self, name: &str, value: i64)
        requires
            old(self).wf(),
        ensures
            final(self).wf(),
            final(self).level == old(self).level,
            final(self).default_id == old(self).default_id,
            final(self).trail == old(self).trail,
            is_id_name(name@) && 0 <= value <= u32::MAX ==> {
                &&& final(self).id == Some(value as u32)
                &&& final(self).message == old(self).message
                &&& final(self).fields_view() == old(self).fields_view()
            },
            !(is_id_name(name@) && 0 <= value <= u32::MAX) ==> {
                &&& final(self).id == old(self).id
                &&& debug_recorded(*old(self), *final(self), name@, dec_int(value as int))
            },
    {
        if check_id_name(name) && value >= 0 && value <= u32::MAX as i64 {
            self.id = Some(value as u32);
        } else {
            self.record_debug(name, render_i128(value as i128));
        }
    }

    /// Records a 128-bit unsigned integer by its decimal text.
    pub fn record_u128(&mut self, name: &str, value: u128)
        requires
            old(self).wf(),
        ensures
            final(self).wf(),
            final(self).level == old(self).level,
            final(self).default_id == old(self).default_id,
            final(self).id == old(self).id,
            final(self).trail == old(self).trail,
            debug_recorded(*old(self), *final(self), name@, dec_nat(value as int)),
    {
        self.record_debug(name, render_u128(value));
    }

    /// Records a 128-bit signed integer by its decimal text.
    pub fn record_i128(&mut self, name: &str, value: i128)
        requires
            old(self).wf(),
        ensures
            final(self).wf(),
            final(self).level == old(self).level,
            final(self).default_id == old(self).default_id,
            final(self).id == old(self).id,
            final(self).trail == old(self).trail,
            debug_recorded(*old(self), *final(self), name@, dec_int(value as int)),
    {
        self.record_debug(name, render_i128(value));
    }

    /// Records a boolean by its fixed text.
    pub fn record_bool(&mut self, name: &str, value: bool)
        requires
            old(self).wf(),
        ensures
            final(self).wf(),
            final(self).level == old(self).level,
            final(self).default_id == old(self).default_id,
            final(self).id == old(self).id,
            final(self).trail == old(self).trail,
            debug_recorded(*old(self), *final(self), name@, bool_text(value)),
    {
        self.record_debug(name, render_bool(value));
    }

    /// Records a string field by its debug form.
    pub fn record_str(&mut self, name: &str, value: &str)
        requires
            old(self).wf(),
        ensures
            final(self).wf(),
            final(self).level == old(self).level,
            final(self).default_id == old(self).default_id,
            final(self).id == old(self).id,
            final(self).trail == old(self).trail,
            debug_recorded(*old(self), *final(self), name@, str_debug(value@)),
    {
        self.record_debug(name, debug_render_str(value));
    }

    /// Sets the ancestry trail computed for the event's span chain.
    pub fn set_trail(&mut self, trail: Option<String>)
        ensures
            final(self).level == old(self).level,
            final(self).default_id == old(self).default_id,
            final(self).id == old(self).id,
            final(self).message == old(self).message,
            final(self).fields == old(self).fields,
            final(self).trail == trail,
    {
        self.trail = trail;
    }

    /// Resolves the identifier: the event's own, else the configured
    /// default, else zero.
    pub fn resolve_id(&self) -> (id: u32)
        ensures
            id == self.resolved_id_spec(),
    {
        match self.id {
            Some(i) => i,
            None => match self.default_id {
                Some(d) => d,
                None => 0,
            },
        }
    }

    /// Assembles the message body: the primary message and a blank
    /// line, the ancestry line, then one line per extra field in
    /// insertion order, each value's backslash escaping normalized;
    /// absent parts contribute nothing.
    pub fn render_message(&self) -> (m: String)
        ensures
            m@ == self.rendered_spec(),
    {
        let mut msg = String::new();
        if let Some(m0) = &self.message {
            msg.append(m0.as_str());
            msg.append("\n\n");
        }
        if let Some(t) = &self.trail {
            msg.append("source: ");
            msg.append(t.as_str());
            msg.append("\n");
        }
        proof {
            assert(msg@ =~= message_block(self.message_view()) + trail_block(self.trail_view()));
            assert(self.fields_view().take(0) =~= Seq::<(Seq<char>, Seq<char>)>::empty());
            assert(msg@ + fields_block(self.fields_view().take(0)) =~= msg@);
        }
        let ghost header = msg@;
        let n = self.fields.len();
        let mut i: usize = 0;
        while i < n
            invariant
                i <= n,
                n == self.fields@.len(),
                msg@ == header + fields_block(self.fields_view().take(i as int)),
                header == message_block(self.message_view()) + trail_block(self.trail_view()),
            decreases n - i,
        {
            let pair = &self.fields[i];
            msg.append(pair.0.as_str());
            msg.append(": ");
            let collapsed = collapse_backslashes(pair.1.as_str());
            msg.append(collapsed.as_str());
            msg.append("\n");
            proof {
                let fs = self.fields_view();
                assert(fs.take(i + 1).drop_last() =~= fs.take(i as int));
                assert(fs.take(i + 1).last() == fs[i as int]);
                assert(fs[i as int].0 == self.fields@[i as int].0@);
                assert(msg@ =~= header + fields_block(fs.take(i + 1)));
            }
            i += 1;
        }
        proof {
            assert(self.fields_view().take(n as int) =~= self.fields_view());
        }
        msg
    }

    /// Renders the whole record: the resolved identifier, the native
    /// category of the event's severity, and the assembled body.
    pub fn finish(&self) -> (r: RenderedRecord)
        ensures
            r.id == self.resolved_id_spec(),
            r.category == category_of_spec(self.level),
            r.body@ == self.rendered_spec(),
    {
        RenderedRecord {
            id: self.resolve_id(),
            category: category_of(&self.level),
            body: self.render_message(),
        }
    }

    /// Stores a rendered value under a field name that is not the
    /// reserved primary-message name; a repeated name overwrites.
    fn insert_field(&mut self, name: &str, rendered: String)
        requires
            old(self).wf(),
            name@ != "message"@,
        ensures
            final(self).wf(),
            final(self).level == old(self).level,
            final(self).default_id == old(self).default_id,
            final(self).id == old(self).id,
            final(self).message == old(self).message,
            final(self).trail == old(self).trail,
            final(self).fields_view() == spec_insert(old(self).fields_view(), name@, rendered@),
    {
        let n = self.fields.len();
        let mut i: usize = 0;
        while i < n
            invariant
                i <= n,
                n == self.fields@.len(),
                *self == *old(self),
                old(self).wf(),
                name@ != "message"@,
                forall|j: int| 0 <= j < i ==> self.fields@[j].0@ != name@,
            decreases n - i,
        {
            if str_eq(self.fields[i].0.as_str(), name) {
                let ghost pre = self.fields@;
                self.fields[i] = (String::from_str(name), rendered);
                proof {
                    lemma_spec_insert_found(fields_view_of(pre), name@, rendered@, i as int);
                    assert(self.fields_view() =~= fields_view_of(pre).update(
                        i as int,
                        (name@, rendered@),
                    ));
                    assert(pre[i as int].0@ == name@);
                    assert(self.fields@.len() == pre.len());
                    assert forall|p: int| 0 <= p < pre.len() implies #[trigger] self.fields@[p].0@
                        == old(self).fields@[p].0@ by {
                        if p != i as int {
                            assert(self.fields@[p] == pre[p]);
                        }
                    }
                    assert forall|p: int, q: int|
                        0 <= p < q < self.fields@.len() implies self.fields@[p].0@
                        != self.fields@[q].0@ by {
                        assert(old(self).fields@[p].0@ != old(self).fields@[q].0@);
                    }
                    assert forall|p: int| 0 <= p < self.fields@.len() implies self.fields@[p].0@
                        != "message"@ by {
                        assert(old(self).fields@[p].0@ != "message"@);
                    }
                }
                return ;
            }
            i += 1;
        }
        let ghost pre = self.fields@;
        self.fields.push((String::from_str(name), rendered));
        proof {
            lemma_spec_insert_absent(fields_view_of(pre), name@, rendered@);
            assert(self.fields_view() =~= fields_view_of(pre).push((name@, rendered@)));
        }
    }
}

/// Inserting under a name found at position `i`, every earlier name
/// different, replaces the pair in place.
proof fn lemma_spec_insert_found(
    fs: Seq<(Seq<char>, Seq<char>)>,
    k: Seq<char>,
    v: Seq<char>,
    i: int,
)
    requires
        0 <= i < fs.len(),
        fs[i].0 == k,
        forall|j: int| 0 <= j < i ==> fs[j].0 != k,
    ensures
        spec_insert(fs, k, v) == fs.update(i, (k, v)),
    decreases i,
{
    if i == 0 {
        assert(spec_insert(fs, k, v) == seq![(k, v)] + fs.drop_first());
        assert(seq![(k, v)] + fs.drop_first() =~= fs.update(0, (k, v)));
    } else {
        lemma_spec_insert_found(fs.drop_first(), k, v, i - 1);
        assert(spec_insert(fs, k, v) == seq![fs[0]] + spec_insert(fs.drop_first(), k, v));
        assert(seq![fs[0]] + fs.drop_first().update(i - 1, (k, v)) =~= fs.update(i, (k, v)));
    }
}

/// Inserting a name that is absent appends the pair at the end.
proof fn lemma_spec_insert_absent(fs: Seq<(Seq<char>, Seq<char>)>, k: Seq<char>, v: Seq<char>)
    requires
        forall|j: int| 0 <= j < fs.len() ==> fs[j].0 != k,
    ensures
        spec_insert(fs, k, v) == fs.push((k, v)),
    decreases fs.len(),
{
    if fs.len() == 0 {
        assert(spec_insert(fs, k, v) =~= fs.push((k, v)));
    } else {
        lemma_spec_insert_absent(fs.drop_first(), k, v);
        assert(seq![fs[0]] + fs.drop_first().push((k, v)) =~= fs.push((k, v)));
    }
}

/// Law: an event-supplied identifier always overrides the configured
/// default — once the event gave one, the resolved identifier is that
/// value, whatever default either visitor was configured with.
pub proof fn lemma_event_id_overrides_default(a: EventVisitor, b: EventVisitor)
    requires
        a.id is Some,
        a.id == b.id,
    ensures
        a.resolved_id_spec() == a.id.unwrap(),
        a.resolved_id_spec() == b.resolved_id_spec(),
{
}

/// Law: with no event-supplied identifier the resolved identifier is
/// the configured default, and zero when none was configured.
pub proof fn lemma_default_id(v: EventVisitor)
    requires
        v.id is None,
    ensures
        v.resolved_id_spec() == match v.default_id {
            Some(d) => d,
            None => 0u32,
        },
{
}

/// Law: with no span context there is no ancestry line — the body is
/// exactly the primary-message block followed by the field lines.
pub proof fn lemma_no_span_no_source_line(v: EventVisitor)
    requires
        v.trail is None,
    ensures
        v.rendered_spec() == message_block(v.message_view()) + fields_block(v.fields_view()),
{
    assert(message_block(v.message_view()) + trail_block(v.trail_view()) =~= message_block(
        v.message_view(),
    ));
}

/// Law: a field named exactly "message" only ever populates the
/// primary-message slot — no extra field of a well-formed visitor
/// bears that name.
pub proof fn lemma_message_never_extra_field(v: EventVisitor)
    requires
        v.wf(),
    ensures
        forall|i: int| 0 <= i < v.fields_view().len() ==> v.fields_view()[i].0 != "message"@,
{
}

} // verus!
