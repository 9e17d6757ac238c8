//! Typed model of a parsed MIME message.
//!
//! A message arrives as a tree of parts (`MimePart`), each with its headers,
//! content type, and decoded bodies. A depth-first walk classifies every
//! part: attachments are collected in encounter order, text parts fill the
//! plain and HTML bodies, and multipart containers are recursed into. The
//! message is then given a deterministic UUID derived from its metadata, so
//! that re-parsing the same input always yields the same identity.

use vstd::prelude::*;

use crate::text;

verus! {

/// One header of a MIME part: a name and its unfolded value.
pub struct Header {
    pub name: String,
    pub value: String,
}

/// One node of the parsed MIME tree, holding as plain values everything the
/// classification logic reads: the content-type fields, the relevant
/// headers, the decoded bodies, and the child parts.
pub struct MimePart {
    /// MIME type from the `Content-Type` header, as written in the message.
    pub mime: String,
    /// Charset from the `Content-Type` header.
    pub charset: String,
    /// The `name` parameter of the `Content-Type` header, if present.
    pub filename: Option<String>,
    /// Headers of this part, in order of appearance.
    pub headers: Vec<Header>,
    /// Decoded text body; `None` when decoding failed.
    pub body: Option<String>,
    /// Decoded raw body bytes; `None` when decoding failed.
    pub body_raw: Option<Vec<u8>>,
    /// Child parts, for `multipart/*` containers.
    pub subparts: Vec<MimePart>,
}

/// Value of the last header named `name`, scanning in order of appearance
/// with later occurrences overriding earlier ones.
pub open spec fn spec_last_header(headers: Seq<Header>, name: Seq<char>) -> Option<Seq<char>>
    decreases headers.len(),
{
    if headers.len() == 0 {
        None
    } else if headers.last().name@ == name {
        Some(headers.last().value@)
    } else {
        spec_last_header(headers.drop_last(), name)
    }
}

/// Find the value of the last header named `name`.
pub fn last_header(headers: &Vec<Header>, name: &str) -> (r: Option<String>)
    ensures
        match r {
            Some(v) => spec_last_header(headers@, name@) == Some(v@),
            None => spec_last_header(headers@, name@) is None,
        },
{
    let mut i: usize = headers.len();
    assert(headers@.subrange(0, headers@.len() as int) == headers@);
    while i > 0
        invariant
            i <= headers@.len(),
            spec_last_header(headers@, name@) == spec_last_header(
                headers@.subrange(0, i as int),
                name@,
            ),
        decreases i,
    {
        i = i - 1;
        proof {
            assert(headers@.subrange(0, i + 1).last() == headers@[i as int]);
            assert(headers@.subrange(0, i + 1).drop_last() == headers@.subrange(0, i as int));
        }
        if text::str_eq(headers[i].name.as_str(), name) {
            return Some(headers[i].value.clone());
        }
    }
    assert(headers@.subrange(0, 0) =~= Seq::<Header>::empty());
    None
}

/// The disposition kind of a part: the first `;`-separated token of its
/// last `Content-Disposition` header, when one is present.
pub open spec fn spec_disposition(p: MimePart) -> Option<Seq<char>> {
    match spec_last_header(p.headers@, "Content-Disposition"@) {
        Some(v) => Some(text::spec_before(v, ';')),
        None => None,
    }
}

/// The part's MIME type, case-folded.
pub open spec fn spec_mime_lower(p: MimePart) -> Seq<char> {
    text::spec_lower(p.mime@)
}

/// Whether the walk classifies `p` as an attachment: it must carry a
/// `Content-Disposition` of kind `attachment`, or of kind `inline` with a
/// non-`text/*` MIME type, and its raw body must have decoded.
pub open spec fn spec_is_attachment(p: MimePart) -> bool {
    match spec_disposition(p) {
        None => false,
        Some(kind) => {
            &&& !(kind == "inline"@ && text::spec_starts_with(spec_mime_lower(p), "text/"@))
            &&& (kind == "attachment"@ || kind == "inline"@)
            &&& p.body_raw is Some
        },
    }
}

/// The view of an optional string.
pub open spec fn spec_opt_view(o: Option<String>) -> Option<Seq<char>> {
    match o {
        Some(s) => Some(s@),
        None => None,
    }
}

/// The parts of the tree rooted at `p` that the walk classifies as
/// attachments, in depth-first encounter order.
pub open spec fn spec_atts(p: MimePart) -> Seq<MimePart>
    decreases p,
{
    if spec_is_attachment(p) {
        seq![p]
    } else if text::spec_starts_with(spec_mime_lower(p), "text/"@) {
        Seq::empty()
    } else if text::spec_starts_with(spec_mime_lower(p), "multipart/"@) {
        spec_atts_list(p.subparts@)
    } else {
        Seq::empty()
    }
}

pub open spec fn spec_atts_list(ps: Seq<MimePart>) -> Seq<MimePart>
    decreases ps,
{
    if ps.len() == 0 {
        Seq::empty()
    } else {
        spec_atts_list(ps.drop_last()) + spec_atts(ps.last())
    }
}

/// The decoded bodies of non-attachment `text/*<suffix>` parts in the tree
/// rooted at `p`, in depth-first encounter order.
pub open spec fn spec_texts(p: MimePart, suffix: Seq<char>) -> Seq<Seq<char>>
    decreases p,
{
    if spec_is_attachment(p) {
        Seq::empty()
    } else if text::spec_starts_with(spec_mime_lower(p), "text/"@) {
        if text::spec_ends_with(spec_mime_lower(p), suffix) && p.body is Some {
            seq![p.body->0@]
        } else {
            Seq::empty()
        }
    } else if text::spec_starts_with(spec_mime_lower(p), "multipart/"@) {
        spec_texts_list(p.subparts@, suffix)
    } else {
        Seq::empty()
    }
}

pub open spec fn spec_texts_list(ps: Seq<MimePart>, suffix: Seq<char>) -> Seq<Seq<char>>
    decreases ps,
{
    if ps.len() == 0 {
        Seq::empty()
    } else {
        spec_texts_list(ps.drop_last(), suffix) + spec_texts(ps.last(), suffix)
    }
}

/// Folding a run of texts into an accumulator: the last text wins, and an
/// empty run leaves the accumulator unchanged.
pub open spec fn spec_combine(prev: Option<Seq<char>>, texts: Seq<Seq<char>>) -> Option<
    Seq<char>,
> {
    if texts.len() > 0 {
        Some(texts.last())
    } else {
        prev
    }
}

proof fn lemma_combine_app(prev: Option<Seq<char>>, a: Seq<Seq<char>>, b: Seq<Seq<char>>)
    ensures
        spec_combine(spec_combine(prev, a), b) == spec_combine(prev, a + b),
{
    if b.len() > 0 {
        assert((a + b).last() == b.last());
    } else {
        assert(a + b =~= a);
    }
}

/// The data of one attachment.
pub struct AttachmentData {
    /// MIME type, case-folded.
    pub mime: String,
    /// Charset used to encode the attachment data, case-folded.
    pub charset: Option<String>,
    /// `Content-ID`, used to tie the attachment to a `cid:` reference.
    pub content_id: Option<String>,
    /// Attachment filename, from the content-type `name` parameter.
    pub name: String,
    /// Attachment size, in bytes.
    pub size: usize,
    /// Decoded attachment bytes.
    pub data: Vec<u8>,
    /// Zero-based index of this attachment within its message.
    pub index: u16,
    /// UUID of the owning message.
    pub email_id: String,
}

/// A single attachment, tagged by its `Content-Disposition` kind.
pub enum Attachment {
    Inline(AttachmentData),
    Regular(AttachmentData),
}

impl Attachment {
    /// The data carried by either variant.
    pub open spec fn spec_data(self) -> AttachmentData {
        match self {
            Attachment::Inline(d) => d,
            Attachment::Regular(d) => d,
        }
    }
}

/// The filename the walk records for an attachment part: the content-type
/// `name` parameter, or empty when the part carries none.
pub open spec fn spec_att_name(q: MimePart) -> Seq<char> {
    match q.filename {
        Some(n) => n@,
        None => Seq::empty(),
    }
}

/// How one built attachment relates to the MIME part it was built from.
pub open spec fn spec_att_matches(
    a: Attachment,
    q: MimePart,
    index: int,
    email_id: Seq<char>,
) -> bool {
    let d = a.spec_data();
    &&& (a is Inline <==> spec_disposition(q) == Some("inline"@))
    &&& (a is Regular <==> spec_disposition(q) == Some("attachment"@))
    &&& d.mime@ == spec_mime_lower(q)
    &&& spec_opt_view(d.charset) == Some(text::spec_lower(q.charset@))
    &&& spec_opt_view(d.content_id) == spec_last_header(q.headers@, "Content-ID"@)
    &&& d.name@ == spec_att_name(q)
    &&& d.data@ == q.body_raw->0@
    &&& d.size == q.body_raw->0@.len()
    &&& d.index == index
    &&& d.email_id@ == email_id
}

/// The hyphenated textual form of the version-5 UUID of a payload under
/// this crate's fixed namespace.
pub uninterp spec fn uuid_v5_of(data: Seq<u8>) -> Seq<char>;

/// Relies on `uuid::Uuid::new_v5`: an RFC 4122 name-based UUID computed by
/// hashing the namespace and the payload, so the result is a function of
/// the payload bytes alone; its hyphenated form is 36 characters.
#[verifier::external_body]
fn uuid_v5_hyphenated(data: &Vec<u8>) -> (r: String)
    ensures
        r@ == uuid_v5_of(data@),
        r@.len() == 36,
{
    let namespace = uuid::Uuid::from_u128(0x11d00b11d9d05831a6f78f88f86f870au128);
    uuid::Uuid::new_v5(&namespace, data.as_slice()).hyphenated().to_string()
}

/// UTF-8 bytes of an optional string; empty when absent.
pub open spec fn spec_opt_bytes(o: Option<Seq<char>>) -> Seq<u8> {
    match o {
        Some(s) => vstd::utf8::encode_utf8(s),
        None => Seq::empty(),
    }
}

/// Concatenated UTF-8 bytes of a list of strings.
pub open spec fn spec_cat_bytes(ss: Seq<Seq<char>>) -> Seq<u8>
    decreases ss,
{
    if ss.len() == 0 {
        Seq::empty()
    } else {
        spec_cat_bytes(ss.drop_last()) + vstd::utf8::encode_utf8(ss.last())
    }
}

/// The payload the message UUID is derived from: Message-ID, subject,
/// sender and every recipient, in that order.
pub open spec fn spec_uuid_payload(
    message_id: Option<Seq<char>>,
    subject: Option<Seq<char>>,
    sender: Seq<char>,
    recipients: Seq<Seq<char>>,
) -> Seq<u8> {
    spec_opt_bytes(message_id) + spec_opt_bytes(subject) + vstd::utf8::encode_utf8(sender)
        + spec_cat_bytes(recipients)
}

/// The deterministic identity of a message: the same metadata always
/// yields the same UUID.
pub open spec fn spec_email_uuid(
    message_id: Option<Seq<char>>,
    subject: Option<Seq<char>>,
    sender: Seq<char>,
    recipients: Seq<Seq<char>>,
) -> Seq<char> {
    uuid_v5_of(spec_uuid_payload(message_id, subject, sender, recipients))
}

fn push_str_bytes(buf: &mut Vec<u8>, s: &str)
    ensures
        final(buf)@ == old(buf)@ + vstd::utf8::encode_utf8(s@),
{
    let mut piece: Vec<u8> = vstd::slice::slice_to_vec(s.as_bytes());
    buf.append(&mut piece);
}

/// Compute the message UUID from its metadata.
pub fn generate_uuid(
    message_id: &Option<String>,
    subject: &Option<String>,
    sender: &str,
    recipients: &Vec<String>,
) -> (r: String)
    ensures
        r@ == spec_email_uuid(
            spec_opt_view(*message_id),
            spec_opt_view(*subject),
            sender@,
            recipients.deep_view(),
        ),
{
    let mut buf: Vec<u8> = Vec::new();
    match message_id {
        Some(m) => push_str_bytes(&mut buf, m.as_str()),
        None => (),
    }
    match subject {
        Some(s) => push_str_bytes(&mut buf, s.as_str()),
        None => (),
    }
    push_str_bytes(&mut buf, sender);
    let ghost head = buf@;
    let mut i: usize = 0;
    while i < recipients.len()
        invariant
            i <= recipients@.len(),
            buf@ == head + spec_cat_bytes(recipients.deep_view().subrange(0, i as int)),
        decreases recipients@.len() - i,
    {
        push_str_bytes(&mut buf, recipients[i].as_str());
        proof {
            let dv = recipients.deep_view();
            assert(dv.subrange(0, i + 1).drop_last() == dv.subrange(0, i as int));
            assert(dv.subrange(0, i + 1).last() == dv[i as int]);
            assert(dv[i as int] == recipients@[i as int]@);
        }
        i = i + 1;
    }
    proof {
        assert(spec_cat_bytes(recipients.deep_view().subrange(0, 0)) =~= Seq::<u8>::empty());
        assert(recipients.deep_view().subrange(0, recipients@.len() as int)
            == recipients.deep_view());
    }
    uuid_v5_hyphenated(&buf)
}

impl Attachment {
    /// Inspect a part to decide whether it is an attachment; if it is,
    /// build it. The index and owning-message UUID are assigned by the
    /// caller once the whole message is known.
    pub fn from_mime(part: &MimePart) -> (r: Option<Attachment>)
        ensures
            r is Some <==> spec_is_attachment(*part),
            r matches Some(a) ==> spec_att_matches(a, *part, 0, Seq::empty()),
    {
        let mime = text::to_lowercase(part.mime.as_str());
        let charset = text::to_lowercase(part.charset.as_str());
        let content_id = last_header(&part.headers, "Content-ID");
        let kind = match last_header(&part.headers, "Content-Disposition") {
            None => {
                return None;
            },
            Some(v) => text::before_char(v.as_str(), ';'),
        };
        if text::str_eq(kind.as_str(), "inline") && text::starts_with(mime.as_str(), "text/") {
            return None;
        }
        let is_regular = text::str_eq(kind.as_str(), "attachment");
        if !is_regular && !text::str_eq(kind.as_str(), "inline") {
            return None;
        }
        let data: Vec<u8> = match &part.body_raw {
            None => {
                return None;
            },
            Some(b) => b.clone(),
        };
        assert(data@ =~= part.body_raw->0@);
        let name = match &part.filename {
            Some(n) => n.clone(),
            None => String::new(),
        };
        let d = AttachmentData {
            mime,
            charset: Some(charset),
            content_id,
            name,
            size: data.len(),
            data,
            index: 0,
            email_id: String::new(),
        };
        proof {
            reveal_strlit("attachment");
            reveal_strlit("inline");
            assert("attachment"@.len() == 10);
            assert("inline"@.len() == 6);
        }
        if is_regular {
            Some(Attachment::Regular(d))
        } else {
            Some(Attachment::Inline(d))
        }
    }

    /// Attachment filename.
    pub fn get_name(&self) -> (r: &String)
        ensures
            *r == self.spec_data().name,
    {
        match self {
            Attachment::Inline(d) => &d.name,
            Attachment::Regular(d) => &d.name,
        }
    }

    /// Attachment size, in bytes.
    pub fn get_size(&self) -> (r: usize)
        ensures
            r == self.spec_data().size,
    {
        match self {
            Attachment::Inline(d) => d.size,
            Attachment::Regular(d) => d.size,
        }
    }

    /// MIME type of the attachment.
    pub fn get_mime(&self) -> (r: &String)
        ensures
            *r == self.spec_data().mime,
    {
        match self {
            Attachment::Inline(d) => &d.mime,
            Attachment::Regular(d) => &d.mime,
        }
    }

    /// UUID of the owning message.
    pub fn get_email_id(&self) -> (r: &String)
        ensures
            *r == self.spec_data().email_id,
    {
        match self {
            Attachment::Inline(d) => &d.email_id,
            Attachment::Regular(d) => &d.email_id,
        }
    }

    /// Zero-based index of this attachment within its message.
    pub fn get_index(&self) -> (r: u16)
        ensures
            r == self.spec_data().index,
    {
        match self {
            Attachment::Inline(d) => d.index,
            Attachment::Regular(d) => d.index,
        }
    }

    /// The decoded attachment bytes.
    pub fn get_data(&self) -> (r: &Vec<u8>)
        ensures
            *r == self.spec_data().data,
    {
        match self {
            Attachment::Inline(d) => &d.data,
            Attachment::Regular(d) => &d.data,
        }
    }

    /// The decoded attachment bytes, by value.
    pub fn get_data_owned(self) -> (r: Vec<u8>)
        ensures
            r == self.spec_data().data,
    {
        match self {
            Attachment::Inline(d) => d.data,
            Attachment::Regular(d) => d.data,
        }
    }

    /// Whether this is a regular (non-inline) attachment.
    pub fn is_regular(&self) -> (r: bool)
        ensures
            r == (self is Regular),
    {
        match self {
            Attachment::Inline(_) => false,
            Attachment::Regular(_) => true,
        }
    }

    /// Whether this is an inline attachment.
    pub fn is_inline(&self) -> (r: bool)
        ensures
            r == (self is Inline),
    {
        match self {
            Attachment::Inline(_) => true,
            Attachment::Regular(_) => false,
        }
    }

    /// The data carried by either variant, by value.
    pub fn data(self) -> (d: AttachmentData)
        ensures
            d == self.spec_data(),
    {
        match self {
            Attachment::Inline(d) => d,
            Attachment::Regular(d) => d,
        }
    }

    /// A reference to the data carried by either variant.
    pub fn data_ref(&self) -> (d: &AttachmentData)
        ensures
            *d == self.spec_data(),
    {
        match self {
            Attachment::Inline(d) => d,
            Attachment::Regular(d) => d,
        }
    }

    /// Mutable access to the data carried by either variant.
    pub fn data_mut(&mut self) -> (d: &mut AttachmentData)
        ensures
            *d == old(self).spec_data(),
            *old(self) is Inline ==> *final(self) == Attachment::Inline(*final(d)),
            *old(self) is Regular ==> *final(self) == Attachment::Regular(*final(d)),
    {
        match self {
            Attachment::Inline(d) => d,
            Attachment::Regular(d) => d,
        }
    }
}

proof fn lemma_atts_prefix_le(s: Seq<MimePart>, j: int)
    requires
        0 <= j <= s.len(),
    ensures
        spec_atts_list(s.subrange(0, j)).len() <= spec_atts_list(s).len(),
    decreases s.len() - j,
{
    if j == s.len() {
        assert(s.subrange(0, j) == s);
    } else {
        assert(s.subrange(0, j + 1).drop_last() == s.subrange(0, j));
        assert(s.subrange(0, j + 1).last() == s[j]);
        lemma_atts_prefix_le(s, j + 1);
    }
}

/// Depth-first walk of the tree rooted at `part`, mirroring how a message
/// is taken apart: attachments are appended to `atts` in encounter order
/// with their indices and owning UUID assigned, and the last decoded
/// `text/plain` and `text/html` bodies land in `body` and `body_html`.
fn walk_part(
    part: &MimePart,
    email_id: &str,
    atts: &mut Vec<Attachment>,
    body: &mut Option<String>,
    body_html: &mut Option<String>,
)
    requires
        old(atts)@.len() + spec_atts(*part).len() <= u16::MAX,
    ensures
        final(atts)@.len() == old(atts)@.len() + spec_atts(*part).len(),
        forall|i: int| 0 <= i < old(atts)@.len() ==> final(atts)@[i] == old(atts)@[i],
        forall|i: int|
            old(atts)@.len() <= i < final(atts)@.len() ==> spec_att_matches(
                #[trigger] final(atts)@[i],
                spec_atts(*part)[i - old(atts)@.len()],
                i,
                email_id@,
            ),
        spec_opt_view(*final(body)) == spec_combine(
            spec_opt_view(*old(body)),
            spec_texts(*part, "plain"@),
        ),
        spec_opt_view(*final(body_html)) == spec_combine(
            spec_opt_view(*old(body_html)),
            spec_texts(*part, "html"@),
        ),
    decreases *part,
{
    match Attachment::from_mime(part) {
        Some(mut a) => {
            assert(spec_atts(*part) =~= seq![*part]);
            let next_index: u16 = atts.len() as u16;
            let d = a.data_mut();
            d.index = next_index;
            d.email_id = email_id.to_owned();
            atts.push(a);
        },
        None => {
            let mime = text::to_lowercase(part.mime.as_str());
            if text::starts_with(mime.as_str(), "text/") {
                proof {
                    reveal_strlit("plain");
                    reveal_strlit("html");
                    assert("plain"@.len() == 5);
                    assert("html"@.len() == 4);
                    assert("plain"@[4] == 'n' && "html"@[3] == 'l');
                }
                match &part.body {
                    Some(b) => {
                        if text::ends_with(mime.as_str(), "plain") {
                            assert(!text::spec_ends_with(mime@, "html"@));
                            *body = Some(b.clone());
                        } else if text::ends_with(mime.as_str(), "html") {
                            *body_html = Some(b.clone());
                        }
                    },
                    None => {},
                }
            } else if text::starts_with(mime.as_str(), "multipart/") {
                let ghost old_len = atts@.len() as int;
                let ghost subs = part.subparts@;
                let ghost body0 = spec_opt_view(*body);
                let ghost html0 = spec_opt_view(*body_html);
                let n = part.subparts.len();
                let mut j: usize = 0;
                proof {
                    assert(subs.subrange(0, 0) =~= Seq::<MimePart>::empty());
                }
                while j < n
                    invariant
                        0 <= j <= n == subs.len(),
                        subs == part.subparts@,
                        old_len + spec_atts_list(subs).len() <= u16::MAX,
                        spec_atts(*part) == spec_atts_list(subs),
                        spec_texts(*part, "plain"@) == spec_texts_list(subs, "plain"@),
                        spec_texts(*part, "html"@) == spec_texts_list(subs, "html"@),
                        atts@.len() == old_len + spec_atts_list(subs.subrange(0, j as int)).len(),
                        forall|i: int| 0 <= i < old_len ==> atts@[i] == old(atts)@[i],
                        forall|i: int|
                            old_len <= i < atts@.len() ==> spec_att_matches(
                                #[trigger] atts@[i],
                                spec_atts_list(subs.subrange(0, j as int))[i - old_len],
                                i,
                                email_id@,
                            ),
                        spec_opt_view(*body) == spec_combine(
                            body0,
                            spec_texts_list(subs.subrange(0, j as int), "plain"@),
                        ),
                        spec_opt_view(*body_html) == spec_combine(
                            html0,
                            spec_texts_list(subs.subrange(0, j as int), "html"@),
                        ),
                    decreases n - j,
                {
                    proof {
                        assert(subs.subrange(0, j + 1).drop_last() == subs.subrange(0, j as int));
                        assert(subs.subrange(0, j + 1).last() == subs[j as int]);
                        lemma_atts_prefix_le(subs, j + 1);
                    }
                    let ghost pre = atts@;
                    let ghost body_pre = spec_opt_view(*body);
                    let ghost html_pre = spec_opt_view(*body_html);
                    walk_part(&part.subparts[j], email_id, atts, body, body_html);
                    proof {
                        let pfx = subs.subrange(0, j as int);
                        let pfx1 = subs.subrange(0, j + 1);
                        assert(spec_atts_list(pfx1) == spec_atts_list(pfx) + spec_atts(
                            subs[j as int],
                        ));
                        assert forall|i: int| old_len <= i < atts@.len() implies spec_att_matches(
                            #[trigger] atts@[i],
                            spec_atts_list(pfx1)[i - old_len],
                            i,
                            email_id@,
                        ) by {
                            if i < pre.len() {
                                assert(atts@[i] == pre[i]);
                                assert(spec_att_matches(
                                    pre[i],
                                    spec_atts_list(pfx)[i - old_len],
                                    i,
                                    email_id@,
                                ));
                                assert(spec_atts_list(pfx1)[i - old_len] == spec_atts_list(
                                    pfx,
                                )[i - old_len]);
                            } else {
                                assert(spec_att_matches(
                                    atts@[i],
                                    spec_atts(subs[j as int])[i - pre.len()],
                                    i,
                                    email_id@,
                                ));
                                assert(spec_atts_list(pfx1)[i - old_len] == spec_atts(
                                    subs[j as int],
                                )[i - pre.len()]);
                            }
                        }
                        lemma_combine_app(body0, spec_texts_list(pfx, "plain"@), spec_texts(
                            subs[j as int],
                            "plain"@,
                        ));
                        lemma_combine_app(html0, spec_texts_list(pfx, "html"@), spec_texts(
                            subs[j as int],
                            "html"@,
                        ));
                        assert(spec_texts_list(pfx1, "plain"@) == spec_texts_list(pfx, "plain"@)
                            + spec_texts(subs[j as int], "plain"@));
                        assert(spec_texts_list(pfx1, "html"@) == spec_texts_list(pfx, "html"@)
                            + spec_texts(subs[j as int], "html"@));
                    }
                    j = j + 1;
                }
                proof {
                    assert(subs.subrange(0, n as int) == subs);
                }
            }
        },
    }
}

/// A single parsed message: metadata, bodies, and attachments, under a
/// deterministic UUID.
pub struct Email {
    /// Envelope sender, as handed over by the MTA.
    pub sender: String,
    /// Envelope recipients, in the order presented; narrowed to the single
    /// resolved address by the server.
    pub recipients: Vec<String>,
    /// `Subject` header, stored verbatim.
    pub subject: Option<String>,
    /// Plaintext body.
    pub body: String,
    /// HTML body, if any.
    pub body_html: Option<String>,
    /// Total message size, in bytes.
    pub size: usize,
    /// Number of attachments.
    pub num_attachments: u16,
    /// The attachments, when there is at least one; their bytes travel in
    /// separate requests keyed by `(uuid, index)`.
    pub attachments: Option<Vec<Attachment>>,
    /// Deterministic UUID tying the message to its attachments.
    pub uuid: String,
    /// `Message-ID` header with surrounding angle brackets stripped.
    pub message_id: Option<String>,
}

/// The subject a parse records for a tree: the last `Subject` header.
pub open spec fn spec_subject_of(part: MimePart) -> Option<Seq<char>> {
    spec_last_header(part.headers@, "Subject"@)
}

/// The Message-ID a parse records for a tree: the last `Message-ID`
/// header, with its surrounding angle brackets stripped.
pub open spec fn spec_message_id_of(part: MimePart) -> Option<Seq<char>> {
    match spec_last_header(part.headers@, "Message-ID"@) {
        Some(v) => Some(text::spec_strip_angles(v)),
        None => None,
    }
}

/// The plaintext body a parse records for a tree.
pub open spec fn spec_body_of(part: MimePart) -> Seq<char> {
    match spec_combine(None, spec_texts(part, "plain"@)) {
        Some(t) => t,
        None => Seq::empty(),
    }
}

/// The HTML body a parse records for a tree.
pub open spec fn spec_body_html_of(part: MimePart) -> Option<Seq<char>> {
    spec_combine(None, spec_texts(part, "html"@))
}

/// The UUID a parse assigns to a tree with the given envelope.
pub open spec fn spec_uuid_of(
    part: MimePart,
    sender: Seq<char>,
    recipients: Seq<Seq<char>>,
) -> Seq<char> {
    spec_email_uuid(spec_message_id_of(part), spec_subject_of(part), sender, recipients)
}

impl Email {
    /// How a built message relates to the tree and envelope it came from.
    pub open spec fn spec_matches_tree(
        self,
        part: MimePart,
        sender: Seq<char>,
        recipients: Seq<Seq<char>>,
        size: usize,
    ) -> bool {
        &&& self.sender@ == sender
        &&& self.recipients.deep_view() == recipients
        &&& self.size == size
        &&& spec_opt_view(self.subject) == spec_subject_of(part)
        &&& spec_opt_view(self.message_id) == spec_message_id_of(part)
        &&& self.body@ == spec_body_of(part)
        &&& spec_opt_view(self.body_html) == spec_body_html_of(part)
        &&& self.num_attachments as nat == spec_atts(part).len()
        &&& self.uuid@ == spec_uuid_of(part, sender, recipients)
        &&& match self.attachments {
            Some(v) => v@.len() == spec_atts(part).len() && v@.len() > 0 && forall|i: int|
                0 <= i < v@.len() ==> spec_att_matches(
                    #[trigger] v@[i],
                    spec_atts(part)[i],
                    i,
                    self.uuid@,
                ),
            None => spec_atts(part).len() == 0,
        }
    }

    /// Build a message from a parsed MIME tree and its envelope.
    ///
    /// The walk classifies every part; the subject is stored verbatim, the
    /// Message-ID with its angle brackets stripped, and the UUID is the
    /// version-5 UUID of `message_id ∥ subject ∥ sender ∥ recipients`, so
    /// the same input always yields the same identity.
    pub fn from_tree(part: &MimePart, sender: String, recipients: Vec<String>, size: usize) -> (r:
        Email)
        requires
            spec_atts(*part).len() <= u16::MAX,
        ensures
            r.spec_matches_tree(*part, sender@, recipients.deep_view(), size),
    {
        let subject = last_header(&part.headers, "Subject");
        let message_id = match last_header(&part.headers, "Message-ID") {
            Some(v) => Some(text::strip_angles(v.as_str())),
            None => None,
        };
        let uuid = generate_uuid(&message_id, &subject, sender.as_str(), &recipients);
        let mut atts: Vec<Attachment> = Vec::new();
        let mut body: Option<String> = None;
        let mut body_html: Option<String> = None;
        walk_part(part, uuid.as_str(), &mut atts, &mut body, &mut body_html);
        let num_attachments: u16 = atts.len() as u16;
        let body = match body {
            Some(b) => b,
            None => String::new(),
        };
        let attachments = if atts.len() > 0 {
            Some(atts)
        } else {
            None
        };
        Email {
            sender,
            recipients,
            subject,
            body,
            body_html,
            size,
            num_attachments,
            attachments,
            uuid,
            message_id,
        }
    }

    /// An empty message.
    pub fn new() -> (r: Email)
        ensures
            r.sender@ == Seq::<char>::empty(),
            r.recipients@ == Seq::<String>::empty(),
            r.subject is None,
            r.body@ == Seq::<char>::empty(),
            r.body_html is None,
            r.size == 0,
            r.num_attachments == 0,
            r.attachments is None,
            r.uuid@ == Seq::<char>::empty(),
            r.message_id is None,
    {
        Email {
            sender: String::new(),
            recipients: Vec::new(),
            subject: None,
            body: String::new(),
            body_html: None,
            size: 0,
            num_attachments: 0,
            attachments: None,
            uuid: String::new(),
            message_id: None,
        }
    }

    /// Replace the sender, leaving everything else (the UUID included)
    /// unchanged.
    pub fn with_sender(self, sender: String) -> (r: Email)
        ensures
            r == (Email { sender, ..self }),
    {
        Email { sender, ..self }
    }

    /// Replace the recipient list, leaving everything else (the UUID
    /// included) unchanged.
    pub fn with_recipients(self, recipients: Vec<String>) -> (r: Email)
        ensures
            r == (Email { recipients, ..self }),
    {
        Email { recipients, ..self }
    }
}

/// The message UUID is deterministic: parsing the same tree with the same
/// envelope always yields the same identity.
pub proof fn lemma_uuid_deterministic(
    part: MimePart,
    sender: Seq<char>,
    recipients: Seq<Seq<char>>,
    a: Email,
    b: Email,
    size_a: usize,
    size_b: usize,
)
    requires
        a.spec_matches_tree(part, sender, recipients, size_a),
        b.spec_matches_tree(part, sender, recipients, size_b),
    ensures
        a.uuid@ == b.uuid@,
{
}

/// Stripping the surrounding angle brackets back off a wrapped Message-ID
/// returns the original, whatever it holds.
pub proof fn lemma_wrap_then_strip(m: Seq<char>)
    ensures
        text::spec_strip_angles(seq!['<'] + m + seq!['>']) == m,
{
    let w = seq!['<'] + m + seq!['>'];
    assert(w.first() == '<');
    assert(w.drop_first() =~= m + seq!['>']);
    assert((m + seq!['>']).last() == '>');
    assert((m + seq!['>']).drop_last() =~= m);
}

/// Re-serialise a message's headers: the subject verbatim, the Message-ID
/// wrapped back in angle brackets.
pub fn reserialize_headers(email: &Email) -> (hs: Vec<Header>)
    ensures
        spec_last_header(hs@, "Subject"@) == spec_opt_view(email.subject),
        match spec_opt_view(email.message_id) {
            Some(m) => spec_last_header(hs@, "Message-ID"@) == Some(seq!['<'] + m + seq!['>']),
            None => spec_last_header(hs@, "Message-ID"@) is None,
        },
{
    let mut hs: Vec<Header> = Vec::new();
    match &email.subject {
        Some(s) => {
            hs.push(Header { name: String::from_str("Subject"), value: s.clone() });
        },
        None => {},
    }
    match &email.message_id {
        Some(m) => {
            let mut v = String::from_str("<");
            v.append(m.as_str());
            v.append(">");
            proof {
                reveal_strlit("<");
                reveal_strlit(">");
                assert("<"@ =~= seq!['<'] && ">"@ =~= seq!['>']);
            }
            hs.push(Header { name: String::from_str("Message-ID"), value: v });
        },
        None => {},
    }
    proof {
        reveal_strlit("Subject");
        reveal_strlit("Message-ID");
        assert("Subject"@.len() == 7 && "Message-ID"@.len() == 10);
        lemma_last_header_cases(hs@, "Subject"@);
        lemma_last_header_cases(hs@, "Message-ID"@);
    }
    hs
}

proof fn lemma_last_header_cases(hs: Seq<Header>, name: Seq<char>)
    ensures
        hs.len() == 0 ==> spec_last_header(hs, name) is None,
        hs.len() >= 1 && hs.last().name@ == name ==> spec_last_header(hs, name) == Some(
            hs.last().value@,
        ),
        hs.len() == 1 && hs.last().name@ != name ==> spec_last_header(hs, name) is None,
        hs.len() == 2 && hs[1].name@ != name && hs[0].name@ == name ==> spec_last_header(hs, name)
            == Some(hs[0].value@),
        hs.len() == 2 && hs[1].name@ != name && hs[0].name@ != name ==> spec_last_header(
            hs,
            name,
        ) is None,
{
    reveal_with_fuel(spec_last_header, 3);
    if hs.len() == 1 && hs.last().name@ != name {
        assert(hs.drop_last() =~= Seq::<Header>::empty());
    }
    if hs.len() == 2 && hs.last().name@ != name {
        assert(hs.drop_last().last() == hs[0]);
        assert(hs.drop_last().drop_last() =~= Seq::<Header>::empty());
        if hs[0].name@ != name {
            assert(spec_last_header(hs.drop_last(), name) is None);
        }
    }
}

/// Re-parsing the headers-only re-serialisation of a parsed message yields
/// the same subject and Message-ID: parse, re-serialise, parse comes to the
/// same thing as parse.
pub proof fn lemma_header_round_trip(
    t: MimePart,
    e: Email,
    t2: MimePart,
    sender: Seq<char>,
    recipients: Seq<Seq<char>>,
    size: usize,
)
    requires
        e.spec_matches_tree(t, sender, recipients, size),
        spec_last_header(t2.headers@, "Subject"@) == spec_opt_view(e.subject),
        match spec_opt_view(e.message_id) {
            Some(m) => spec_last_header(t2.headers@, "Message-ID"@) == Some(
                seq!['<'] + m + seq!['>'],
            ),
            None => spec_last_header(t2.headers@, "Message-ID"@) is None,
        },
    ensures
        spec_subject_of(t2) == spec_subject_of(t),
        spec_message_id_of(t2) == spec_message_id_of(t),
{
    match spec_last_header(t.headers@, "Message-ID"@) {
        Some(v) => {
            let m = text::spec_strip_angles(v);
            assert(spec_opt_view(e.message_id) == Some(m));
            lemma_wrap_then_strip(m);
        },
        None => {},
    }
}

/// An attachment's recorded size is exactly the length of its decoded
/// bytes: what is announced for the upload is what the backend receives.
pub proof fn lemma_attachment_size_exact(a: Attachment, q: MimePart, i: int, id: Seq<char>)
    requires
        spec_att_matches(a, q, i, id),
    ensures
        a.spec_data().size == a.spec_data().data@.len(),
{
}

/// An inline `text/*` part is never classified as an attachment.
pub proof fn lemma_inline_text_not_attachment(p: MimePart)
    requires
        spec_disposition(p) == Some("inline"@),
        text::spec_starts_with(spec_mime_lower(p), "text/"@),
    ensures
        !spec_is_attachment(p),
{
}

/// An inline part of any non-`text/*` type (an inline image, say) whose
/// body decoded is classified as an attachment, and as an inline one.
pub proof fn lemma_inline_nontext_is_attachment(p: MimePart, a: Attachment, i: int, id: Seq<char>)
    requires
        spec_disposition(p) == Some("inline"@),
        !text::spec_starts_with(spec_mime_lower(p), "text/"@),
        p.body_raw is Some,
        spec_att_matches(a, p, i, id),
    ensures
        spec_is_attachment(p),
        a is Inline,
{
}

} // verus!
