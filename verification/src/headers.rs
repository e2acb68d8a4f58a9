//! The header codec: a bidirectional mapping between typed domain values and
//! protocol header entries. Encoding is total; decoding is partial and fails
//! with a typed [`crate::errors::Error`] on absence or malformed text.

use vstd::prelude::*;
use crate::access_tier::{lemma_tier_round_trip, tier_of, tier_str, AccessTier};
use crate::errors::{Error, ErrorV};
use crate::ids::{parsed_uuid, uuid_format, uuid_parse, uuid_str_of, RequestId};
use crate::metadata::{meta_map, meta_pairs_of, meta_prefix, Metadata};
use crate::numeric::{dec_of, dec_string_of, lemma_decimal_round_trip, parse_u64, u64_to_string};
use crate::text::{eq_ci_seq, eq_ignore_ascii_case};
use crate::time::{parsed_rfc2822, rfc2822_format, rfc2822_of, rfc2822_parse, Timestamp};

verus! {

/// One protocol header entry: a name and its textual value.
#[derive(Debug, Clone)]
pub struct HeaderEntry {
    pub name: String,
    pub value: String,
}

/// A header container: an ordered list of entries with case-insensitive
/// name lookup, as both request and response carry it.
#[derive(Debug, Clone)]
pub struct Headers {
    pub entries: Vec<HeaderEntry>,
}

impl View for HeaderEntry {
    type V = (Seq<char>, Seq<char>);

    open spec fn view(&self) -> (Seq<char>, Seq<char>) {
        (self.name@, self.value@)
    }
}

impl View for Headers {
    type V = Seq<(Seq<char>, Seq<char>)>;

    open spec fn view(&self) -> Seq<(Seq<char>, Seq<char>)> {
        Seq::new(self.entries@.len(), |i: int| self.entries@[i]@)
    }
}

/// The value of the first entry whose name equals `name` up to ASCII case,
/// or `None` when no entry matches.
pub open spec fn lookup(h: Seq<(Seq<char>, Seq<char>)>, name: Seq<char>) -> Option<Seq<char>>
    decreases h.len(),
{
    if h.len() == 0 {
        None
    } else if eq_ci_seq(h[0].0, name) {
        Some(h[0].1)
    } else {
        lookup(h.drop_first(), name)
    }
}

/// The entries whose name differs from `name` up to ASCII case, in order.
pub open spec fn remove_entries(
    h: Seq<(Seq<char>, Seq<char>)>,
    name: Seq<char>,
) -> Seq<(Seq<char>, Seq<char>)>
    decreases h.len(),
{
    if h.len() == 0 {
        Seq::empty()
    } else {
        let rest = remove_entries(h.drop_last(), name);
        if eq_ci_seq(h.last().0, name) {
            rest
        } else {
            rest.push(h.last())
        }
    }
}

/// The container after `name` is bound to `value`: every entry of that name
/// is overwritten by the one new entry.
pub open spec fn set_entry(
    h: Seq<(Seq<char>, Seq<char>)>,
    name: Seq<char>,
    value: Seq<char>,
) -> Seq<(Seq<char>, Seq<char>)> {
    remove_entries(h, name).push((name, value))
}

impl Headers {
    /// An empty header container.
    pub fn new() -> (r: Headers)
        ensures
            r@ =~= Seq::<(Seq<char>, Seq<char>)>::empty(),
    {
        Headers { entries: Vec::new() }
    }

    /// Appends one entry without touching existing ones.
    pub fn append(&mut self, name: String, value: String)
        ensures
            final(self)@ =~= old(self)@.push((name@, value@)),
    {
        let ghost old_entries = self.entries@;
        self.entries.push(HeaderEntry { name, value });
        proof {
            assert(forall|i: int|
                0 <= i < old_entries.len() ==> self.entries@[i] == #[trigger] old_entries[i]);
        }
    }

    /// The value of the first entry matching `name` up to ASCII case.
    pub fn get(&self, name: &str) -> (r: Option<String>)
        ensures
            match r {
                Some(v) => lookup(self@, name@) == Some(v@),
                None => lookup(self@, name@) is None,
            },
    {
        let n = self.entries.len();
        let mut i: usize = 0;
        proof {
            assert(self@.skip(0) =~= self@);
        }
        while i < n
            invariant
                0 <= i <= n,
                n == self.entries@.len(),
                self@.len() == n,
                forall|j: int| 0 <= j < n ==> #[trigger] self@[j] == self.entries@[j]@,
                lookup(self@, name@) == lookup(self@.skip(i as int), name@),
            decreases n - i,
        {
            let e = &self.entries[i];
            if eq_ignore_ascii_case(e.name.as_str(), name) {
                proof {
                    assert(self@.skip(i as int)[0] == self@[i as int]);
                }
                return Some(e.value.clone());
            }
            proof {
                assert(self@.skip(i as int)[0] == self@[i as int]);
                assert(self@.skip(i as int).drop_first() =~= self@.skip(i + 1));
            }
            i = i + 1;
        }
        proof {
            assert(self@.skip(n as int) =~= Seq::<(Seq<char>, Seq<char>)>::empty());
        }
        None
    }

    /// Binds `name` to `value`, overwriting every entry of that name.
    pub fn set(&mut self, name: &str, value: String)
        ensures
            final(self)@ =~= set_entry(old(self)@, name@, value@),
    {
        let n = self.entries.len();
        let mut out: Vec<HeaderEntry> = Vec::new();
        let ghost h = old(self)@;
        let mut i: usize = 0;
        while i < n
            invariant
                0 <= i <= n,
                n == self.entries@.len(),
                self.entries@ == old(self).entries@,
                h == old(self)@,
                h.len() == n,
                forall|j: int| 0 <= j < n ==> #[trigger] h[j] == self.entries@[j]@,
                Seq::new(out@.len(), |k: int| out@[k]@) =~= remove_entries(
                    h.subrange(0, i as int),
                    name@,
                ),
            decreases n - i,
        {
            let ghost pre = h.subrange(0, i as int);
            let ghost post = h.subrange(0, i + 1 as int);
            proof {
                assert(post.drop_last() =~= pre);
                assert(post.last() == h[i as int]);
            }
            let e = &self.entries[i];
            if !eq_ignore_ascii_case(e.name.as_str(), name) {
                let ghost before = out@;
                out.push(HeaderEntry { name: e.name.clone(), value: e.value.clone() });
                proof {
                    assert(forall|k: int|
                        0 <= k < before.len() ==> out@[k]@ == #[trigger] before[k]@);
                }
            }
            proof {
                assert(Seq::new(out@.len(), |k: int| out@[k]@) =~= remove_entries(
                    post,
                    name@,
                ));
            }
            i = i + 1;
        }
        proof {
            assert(h.subrange(0, n as int) =~= h);
        }
        let ghost kept = Seq::new(out@.len(), |k: int| out@[k]@);
        out.push(HeaderEntry { name: name.to_owned(), value });
        proof {
            assert(forall|k: int| 0 <= k < kept.len() ==> out@[k]@ == #[trigger] kept[k]);
        }
        self.entries = out;
        proof {
            assert(final(self)@ =~= set_entry(h, name@, value@));
        }
    }
}

/// Binding a name finds back exactly the bound value, whatever was there
/// before and however the queried name is cased.
pub proof fn lemma_lookup_set(
    h: Seq<(Seq<char>, Seq<char>)>,
    name: Seq<char>,
    value: Seq<char>,
    query: Seq<char>,
)
    requires
        eq_ci_seq(query, name),
    ensures
        lookup(set_entry(h, name, value), query) == Some(value),
{
    lemma_remove_entries_clean(h, name);
    lemma_lookup_removed(remove_entries(h, name), name, value, query);
}

proof fn lemma_lookup_removed(
    r: Seq<(Seq<char>, Seq<char>)>,
    name: Seq<char>,
    value: Seq<char>,
    query: Seq<char>,
)
    requires
        eq_ci_seq(query, name),
        forall|i: int| 0 <= i < r.len() ==> !eq_ci_seq(#[trigger] r[i].0, name),
    ensures
        lookup(r.push((name, value)), query) == Some(value),
    decreases r.len(),
{
    if r.len() == 0 {
        assert(r.push((name, value))[0] == (name, value));
    } else {
        assert(!eq_ci_seq(r[0].0, query));
        assert(r.push((name, value)).drop_first() =~= r.drop_first().push((name, value)));
        lemma_lookup_removed(r.drop_first(), name, value, query);
    }
}

/// `remove_entries` leaves no entry that matches the removed name.
pub proof fn lemma_remove_entries_clean(h: Seq<(Seq<char>, Seq<char>)>, name: Seq<char>)
    ensures
        forall|i: int|
            0 <= i < remove_entries(h, name).len() ==> !eq_ci_seq(
                #[trigger] remove_entries(h, name)[i].0,
                name,
            ),
    decreases h.len(),
{
    if h.len() > 0 {
        lemma_remove_entries_clean(h.drop_last(), name);
        let rest = remove_entries(h.drop_last(), name);
        if !eq_ci_seq(h.last().0, name) {
            assert(remove_entries(h, name) == rest.push(h.last()));
            assert(forall|i: int|
                0 <= i < rest.len() ==> rest.push(h.last())[i] == #[trigger] rest[i]);
            assert(rest.push(h.last()).last() == h.last());
        }
    }
}

/// The shape a header's text is decoded into.
#[derive(Clone, Copy, Debug, PartialEq, Eq, Structural)]
pub enum HeaderKind {
    Text,
    Unsigned,
    Stamp,
    Tier,
    Uuid,
}

/// A decoded header value.
#[derive(Debug, PartialEq)]
pub enum HeaderValue {
    Text(String),
    Unsigned(u64),
    Stamp(Timestamp),
    Tier(AccessTier),
    Uuid(RequestId),
}

/// Spec-level image of a [`HeaderValue`].
pub enum HeaderValueV {
    Text(Seq<char>),
    Unsigned(u64),
    Stamp(i64),
    Tier(AccessTier),
    Uuid(u128),
}

impl View for HeaderValue {
    type V = HeaderValueV;

    open spec fn view(&self) -> HeaderValueV {
        match self {
            HeaderValue::Text(s) => HeaderValueV::Text(s@),
            HeaderValue::Unsigned(v) => HeaderValueV::Unsigned(*v),
            HeaderValue::Stamp(t) => HeaderValueV::Stamp(t.secs),
            HeaderValue::Tier(t) => HeaderValueV::Tier(*t),
            HeaderValue::Uuid(u) => HeaderValueV::Uuid(u.value),
        }
    }
}

/// What a header's text decodes to under each kind; `None` on malformed text.
/// Text never fails; the typed kinds fail exactly where their grammar is not
/// met.
pub open spec fn decode_value(kind: HeaderKind, raw: Seq<char>) -> Option<HeaderValueV> {
    match kind {
        HeaderKind::Text => Some(HeaderValueV::Text(raw)),
        HeaderKind::Unsigned => match dec_of(raw) {
            Some(v) => Some(HeaderValueV::Unsigned(v)),
            None => None,
        },
        HeaderKind::Stamp => match parsed_rfc2822(raw) {
            Some(secs) => Some(HeaderValueV::Stamp(secs)),
            None => None,
        },
        HeaderKind::Tier => match tier_of(raw) {
            Some(t) => Some(HeaderValueV::Tier(t)),
            None => None,
        },
        HeaderKind::Uuid => match parsed_uuid(raw) {
            Some(v) => Some(HeaderValueV::Uuid(v)),
            None => None,
        },
    }
}

/// The failure each kind reports on text it cannot decode.
pub open spec fn malformed_of(kind: HeaderKind, raw: Seq<char>) -> ErrorV {
    match kind {
        HeaderKind::Text => ErrorV::MalformedHeaderValue(raw),
        HeaderKind::Unsigned => ErrorV::NumericParseFailure(raw),
        HeaderKind::Stamp => ErrorV::MalformedTimestamp(raw),
        HeaderKind::Tier => ErrorV::MalformedHeaderValue(raw),
        HeaderKind::Uuid => ErrorV::MalformedHeaderValue(raw),
    }
}

/// What decoding a mandatory header returns: the absent header is an error,
/// malformed text is an error, and nothing else is.
pub open spec fn decode_result(
    h: Seq<(Seq<char>, Seq<char>)>,
    name: Seq<char>,
    kind: HeaderKind,
) -> Result<HeaderValueV, ErrorV> {
    match lookup(h, name) {
        None => Err(ErrorV::MissingHeader(name)),
        Some(raw) => match decode_value(kind, raw) {
            Some(v) => Ok(v),
            None => Err(malformed_of(kind, raw)),
        },
    }
}

/// What decoding an optional header returns: absence is `None`, malformed
/// text is still an error.
pub open spec fn decode_optional_result(
    h: Seq<(Seq<char>, Seq<char>)>,
    name: Seq<char>,
    kind: HeaderKind,
) -> Result<Option<HeaderValueV>, ErrorV> {
    match lookup(h, name) {
        None => Ok(None),
        Some(raw) => match decode_value(kind, raw) {
            Some(v) => Ok(Some(v)),
            None => Err(malformed_of(kind, raw)),
        },
    }
}

/// Looks up the header registered for the caller's value kind and decodes
/// its text; fails with a missing-header error on absence and with the
/// kind's malformed error on unparsable text.
pub fn decode(headers: &Headers, name: &str, kind: HeaderKind) -> (r: Result<HeaderValue, Error>)
    ensures
        (match r {
            Ok(v) => decode_result(headers@, name@, kind) == Ok::<HeaderValueV, ErrorV>(v@),
            Err(e) => decode_result(headers@, name@, kind) == Err::<HeaderValueV, ErrorV>(e@),
        }),
{
    match headers.get(name) {
        None => Err(Error::MissingHeader(name.to_owned())),
        Some(raw) => match kind {
            HeaderKind::Text => Ok(HeaderValue::Text(raw)),
            HeaderKind::Unsigned => match parse_u64(raw.as_str()) {
                Some(v) => Ok(HeaderValue::Unsigned(v)),
                None => Err(Error::NumericParseFailure(raw)),
            },
            HeaderKind::Stamp => match rfc2822_parse(raw.as_str()) {
                Some(secs) => Ok(HeaderValue::Stamp(Timestamp { secs })),
                None => Err(Error::MalformedTimestamp(raw)),
            },
            HeaderKind::Tier => match AccessTier::parse(raw.as_str()) {
                Some(t) => Ok(HeaderValue::Tier(t)),
                None => Err(Error::MalformedHeaderValue(raw)),
            },
            HeaderKind::Uuid => match uuid_parse(raw.as_str()) {
                Some(v) => Ok(HeaderValue::Uuid(RequestId { value: v })),
                None => Err(Error::MalformedHeaderValue(raw)),
            },
        },
    }
}

/// Like [`decode`], but absence of the header is success-with-`None`:
/// optionality governs absence handling, never corruption handling.
pub fn decode_optional(headers: &Headers, name: &str, kind: HeaderKind) -> (r: Result<
    Option<HeaderValue>,
    Error,
>)
    ensures
        (match r {
            Ok(Some(v)) => decode_optional_result(headers@, name@, kind) == Ok::<
                Option<HeaderValueV>,
                ErrorV,
            >(Some(v@)),
            Ok(None) => decode_optional_result(headers@, name@, kind) == Ok::<
                Option<HeaderValueV>,
                ErrorV,
            >(None),
            Err(e) => decode_optional_result(headers@, name@, kind) == Err::<
                Option<HeaderValueV>,
                ErrorV,
            >(e@),
        }),
{
    match decode(headers, name, kind) {
        Ok(v) => Ok(Some(v)),
        Err(e) => match e {
            Error::MissingHeader(_) => Ok(None),
            _ => Err(e),
        },
    }
}

/// Absence of an optional header is success-with-`None`, never an error,
/// while decoding the same absent header as mandatory is exactly a
/// missing-header failure.
pub proof fn lemma_optional_absence(
    h: Seq<(Seq<char>, Seq<char>)>,
    name: Seq<char>,
    kind: HeaderKind,
)
    requires
        lookup(h, name) is None,
    ensures
        decode_optional_result(h, name, kind) == Ok::<Option<HeaderValueV>, ErrorV>(None),
        decode_result(h, name, kind) == Err::<HeaderValueV, ErrorV>(ErrorV::MissingHeader(name)),
{
}

/// A value that expresses itself as protocol headers, one variant per
/// header-bearing value kind; each owns its reserved header name and its
/// canonical wire encoding.
pub enum HeaderItem {
    ClientRequestId(String),
    LeaseId(RequestId),
    Version(String),
    Date(Timestamp),
    Quota(u64),
    Tier(AccessTier),
    Meta(Metadata),
}

/// The reserved header name an item is carried under. Metadata spreads over
/// one header per pair, each under the reserved prefix.
pub open spec fn item_name(item: HeaderItem) -> Seq<char> {
    match item {
        HeaderItem::ClientRequestId(_) => "x-ms-client-request-id"@,
        HeaderItem::LeaseId(_) => "x-ms-lease-id"@,
        HeaderItem::Version(_) => "x-ms-version"@,
        HeaderItem::Date(_) => "x-ms-date"@,
        HeaderItem::Quota(_) => "x-ms-share-quota"@,
        HeaderItem::Tier(_) => "x-ms-access-tier"@,
        HeaderItem::Meta(_) => meta_prefix(),
    }
}

/// The kind a decoder reads the item's header back under.
pub open spec fn item_kind(item: HeaderItem) -> HeaderKind {
    match item {
        HeaderItem::ClientRequestId(_) => HeaderKind::Text,
        HeaderItem::LeaseId(_) => HeaderKind::Uuid,
        HeaderItem::Version(_) => HeaderKind::Text,
        HeaderItem::Date(_) => HeaderKind::Stamp,
        HeaderItem::Quota(_) => HeaderKind::Unsigned,
        HeaderItem::Tier(_) => HeaderKind::Tier,
        HeaderItem::Meta(_) => HeaderKind::Text,
    }
}

/// The decoded image of the item's value.
pub open spec fn item_value(item: HeaderItem) -> HeaderValueV {
    match item {
        HeaderItem::ClientRequestId(s) => HeaderValueV::Text(s@),
        HeaderItem::LeaseId(id) => HeaderValueV::Uuid(id.value),
        HeaderItem::Version(s) => HeaderValueV::Text(s@),
        HeaderItem::Date(t) => HeaderValueV::Stamp(t.secs),
        HeaderItem::Quota(q) => HeaderValueV::Unsigned(q),
        HeaderItem::Tier(t) => HeaderValueV::Tier(t),
        HeaderItem::Meta(_) => HeaderValueV::Text(Seq::empty()),
    }
}

/// The canonical textual encoding of the item's value.
pub open spec fn item_encoding(item: HeaderItem) -> Seq<char> {
    match item {
        HeaderItem::ClientRequestId(s) => s@,
        HeaderItem::LeaseId(id) => uuid_str_of(id.value),
        HeaderItem::Version(s) => s@,
        HeaderItem::Date(t) => rfc2822_of(t.secs),
        HeaderItem::Quota(q) => dec_string_of(q as nat),
        HeaderItem::Tier(t) => tier_str(t),
        HeaderItem::Meta(_) => Seq::empty(),
    }
}

/// Encoding is total on every item except a timestamp that RFC 2822 cannot
/// express.
pub open spec fn item_encodable(item: HeaderItem) -> bool {
    match item {
        HeaderItem::Date(t) => t.encodable(),
        _ => true,
    }
}

/// The header entries a metadata mapping spreads into, in pair order.
pub open spec fn meta_entries(pairs: Seq<(Seq<char>, Seq<char>)>) -> Seq<(Seq<char>, Seq<char>)> {
    Seq::new(pairs.len(), |i: int| (meta_prefix() + pairs[i].0, pairs[i].1))
}

/// The header set after an item is encoded onto `h`: metadata appends one
/// entry per pair; every other item overwrites its reserved header.
pub open spec fn apply_item(h: Seq<(Seq<char>, Seq<char>)>, item: HeaderItem) -> Seq<
    (Seq<char>, Seq<char>),
> {
    match item {
        HeaderItem::Meta(m) => h + meta_entries(m@),
        _ => set_entry(h, item_name(item), item_encoding(item)),
    }
}

/// Appends or overwrites the header entries of `item`'s canonical encoding;
/// never fails and never touches anything but headers. Decoding the encoded
/// text under the item's own kind returns the item's value: the codec
/// round-trips on identifier strings, timestamps, unsigned integers,
/// enumerations and opaque tokens.
pub fn encode(item: &HeaderItem, headers: &mut Headers)
    requires
        item_encodable(*item),
    ensures
        final(headers)@ =~= apply_item(old(headers)@, *item),
        !(*item matches HeaderItem::Meta(_)) ==> decode_value(
            item_kind(*item),
            item_encoding(*item),
        ) == Some(item_value(*item)),
{
    match item {
        HeaderItem::ClientRequestId(s) => {
            headers.set("x-ms-client-request-id", s.clone());
        },
        HeaderItem::LeaseId(id) => {
            headers.set("x-ms-lease-id", uuid_format(id.value));
        },
        HeaderItem::Version(s) => {
            headers.set("x-ms-version", s.clone());
        },
        HeaderItem::Date(t) => {
            headers.set("x-ms-date", rfc2822_format(t.secs));
        },
        HeaderItem::Quota(q) => {
            headers.set("x-ms-share-quota", u64_to_string(*q));
            proof {
                lemma_decimal_round_trip(*q);
            }
        },
        HeaderItem::Tier(t) => {
            headers.set("x-ms-access-tier", t.as_str().to_owned());
            proof {
                lemma_tier_round_trip(*t);
            }
        },
        HeaderItem::Meta(m) => {
            let n = m.pairs.len();
            let ghost h0 = old(headers)@;
            let mut i: usize = 0;
            proof {
                assert(h0 + meta_entries(m@.subrange(0, 0)) =~= h0);
            }
            while i < n
                invariant
                    0 <= i <= n,
                    n == m.pairs@.len(),
                    m@.len() == n,
                    forall|j: int| 0 <= j < n ==> #[trigger] m@[j] == m.pairs@[j]@,
                    headers@ =~= h0 + meta_entries(m@.subrange(0, i as int)),
                decreases n - i,
            {
                let p = &m.pairs[i];
                let mut name = "x-ms-meta-".to_owned();
                name.append(p.key.as_str());
                let ghost before = headers@;
                headers.append(name, p.value.clone());
                proof {
                    assert(headers@ =~= h0 + meta_entries(m@.subrange(0, i + 1)));
                }
                i = i + 1;
            }
            proof {
                assert(m@.subrange(0, n as int) =~= m@);
            }
        },
    }
}

/// Round trip of the header codec for the value kinds whose encodings are
/// defined within this crate: decoding an item's canonical encoding under
/// its own kind returns its value. For timestamps and lease identifiers the
/// rendering comes from an outside library, so the same fact is stated by
/// [`encode`]'s contract, where that rendering is produced.
pub proof fn lemma_header_round_trip(item: HeaderItem)
    requires
        !(item matches HeaderItem::LeaseId(_)),
        !(item matches HeaderItem::Date(_)),
        !(item matches HeaderItem::Meta(_)),
    ensures
        decode_value(item_kind(item), item_encoding(item)) == Some(item_value(item)),
{
    match item {
        HeaderItem::Quota(q) => lemma_decimal_round_trip(q),
        HeaderItem::Tier(t) => lemma_tier_round_trip(t),
        _ => (),
    }
}

/// Encoding an item and then decoding its reserved header from the resulting
/// header set returns the item's value, whatever the headers held before.
/// This states the codec round trip at the header-set level for the value
/// kinds whose encodings are defined within this crate; for timestamps and
/// lease identifiers the encodings come from an outside library, and
/// [`encode`]'s own contract states the same composition there.
pub proof fn lemma_encode_then_decode(h: Seq<(Seq<char>, Seq<char>)>, item: HeaderItem)
    requires
        !(item matches HeaderItem::LeaseId(_)),
        !(item matches HeaderItem::Date(_)),
        !(item matches HeaderItem::Meta(_)),
    ensures
        decode_result(apply_item(h, item), item_name(item), item_kind(item)) == Ok::<
            HeaderValueV,
            ErrorV,
        >(item_value(item)),
{
    lemma_lookup_set(h, item_name(item), item_encoding(item), item_name(item));
    lemma_header_round_trip(item);
}

/// Canonical encode entry point for a mandatory typed value.
pub fn add_mandatory_header(item: &HeaderItem, headers: &mut Headers)
    requires
        item_encodable(*item),
    ensures
        final(headers)@ =~= apply_item(old(headers)@, *item),
{
    encode(item, headers);
}

/// Structured-request encode entry point; produces the identical header set
/// as [`add_mandatory_header`].
pub fn add_mandatory_header2(item: &HeaderItem, headers: &mut Headers)
    requires
        item_encodable(*item),
    ensures
        final(headers)@ =~= apply_item(old(headers)@, *item),
{
    encode(item, headers);
}

/// Encodes an optional value: a no-op when absent, else one [`encode`].
pub fn add_optional_header(item: &Option<HeaderItem>, headers: &mut Headers)
    requires
        (match item {
            Some(i) => item_encodable(*i),
            None => true,
        }),
    ensures
        (match item {
            Some(i) => final(headers)@ =~= apply_item(old(headers)@, *i),
            None => final(headers)@ =~= old(headers)@,
        }),
{
    match item {
        Some(i) => encode(i, headers),
        None => (),
    }
}

/// Like [`add_optional_header`], for a borrowed item.
pub fn add_optional_header_ref(item: &Option<&HeaderItem>, headers: &mut Headers)
    requires
        (match item {
            Some(i) => item_encodable(**i),
            None => true,
        }),
    ensures
        (match item {
            Some(i) => final(headers)@ =~= apply_item(old(headers)@, **i),
            None => final(headers)@ =~= old(headers)@,
        }),
{
    match item {
        Some(i) => encode(i, headers),
        None => (),
    }
}

/// Structured-request twin of [`add_optional_header`]; the identical header
/// set comes out.
pub fn add_optional_header2(item: &Option<HeaderItem>, headers: &mut Headers)
    requires
        (match item {
            Some(i) => item_encodable(*i),
            None => true,
        }),
    ensures
        (match item {
            Some(i) => final(headers)@ =~= apply_item(old(headers)@, *i),
            None => final(headers)@ =~= old(headers)@,
        }),
{
    match item {
        Some(i) => encode(i, headers),
        None => (),
    }
}

/// Scans every header under the reserved metadata prefix, strips the prefix
/// and collects the remainder into a metadata mapping with unique keys;
/// never fails — a metadata value is accepted as opaque text.
pub fn decode_metadata(headers: &Headers) -> (r: Metadata)
    ensures
        r.wf(),
        meta_map(r@) == meta_map(meta_pairs_of(headers@)),
{
    let mut m = Metadata::new();
    let n = headers.entries.len();
    let mut i: usize = 0;
    proof {
        assert(headers@.subrange(0, 0) =~= Seq::<(Seq<char>, Seq<char>)>::empty());
    }
    while i < n
        invariant
            0 <= i <= n,
            n == headers.entries@.len(),
            headers@.len() == n,
            forall|j: int| 0 <= j < n ==> #[trigger] headers@[j] == headers.entries@[j]@,
            m.wf(),
            meta_map(m@) == meta_map(meta_pairs_of(headers@.subrange(0, i as int))),
        decreases n - i,
    {
        let ghost pre = headers@.subrange(0, i as int);
        let ghost post = headers@.subrange(0, i + 1 as int);
        proof {
            assert(post.drop_last() =~= pre);
            assert(post.last() == headers@[i as int]);
        }
        let e = &headers.entries[i];
        let name = e.name.as_str();
        let len = name.unicode_len();
        if len >= 10 {
            let head = name.substring_char(0, 10);
            if eq_ignore_ascii_case(head, "x-ms-meta-") {
                let key = name.substring_char(10, len).to_owned();
                proof {
                    assert(crate::metadata::is_meta_name(headers@[i as int].0));
                    assert(key@ =~= headers@[i as int].0.skip(10));
                }
                m.insert(key, e.value.clone());
                proof {
                    let rest = meta_pairs_of(pre);
                    let x = (headers@[i as int].0.skip(10), headers@[i as int].1);
                    assert(meta_pairs_of(post) == rest.push(x));
                    assert(rest.push(x).drop_last() =~= rest);
                    assert(rest.push(x).last() == x);
                    assert(meta_map(meta_pairs_of(post)) == meta_map(rest).insert(x.0, x.1));
                }
            } else {
                proof {
                    assert(!crate::metadata::is_meta_name(headers@[i as int].0));
                    assert(meta_pairs_of(post) == meta_pairs_of(pre));
                }
            }
        } else {
            proof {
                assert(!crate::metadata::is_meta_name(headers@[i as int].0));
                assert(meta_pairs_of(post) == meta_pairs_of(pre));
            }
        }
        i = i + 1;
    }
    proof {
        assert(headers@.subrange(0, n as int) =~= headers@);
    }
    m
}

/// A header sequence free of metadata entries yields no metadata pairs.
proof fn lemma_meta_pairs_of_meta_free(h: Seq<(Seq<char>, Seq<char>)>)
    requires
        forall|i: int|
            0 <= i < h.len() ==> !crate::metadata::is_meta_name((#[trigger] h[i]).0),
    ensures
        meta_pairs_of(h) =~= Seq::<(Seq<char>, Seq<char>)>::empty(),
    decreases h.len(),
{
    if h.len() > 0 {
        assert(forall|i: int|
            0 <= i < h.len() - 1 ==> #[trigger] h.drop_last()[i] == h[i]);
        lemma_meta_pairs_of_meta_free(h.drop_last());
        assert(h.last() == h[h.len() - 1]);
    }
}

/// Encoding a metadata mapping onto a header set that carries no metadata
/// and then decoding that header set recovers exactly the mapping, each key
/// stripped of the reserved prefix.
pub proof fn lemma_metadata_round_trip(
    h: Seq<(Seq<char>, Seq<char>)>,
    m: Seq<(Seq<char>, Seq<char>)>,
)
    requires
        forall|i: int|
            0 <= i < h.len() ==> !crate::metadata::is_meta_name((#[trigger] h[i]).0),
    ensures
        meta_map(meta_pairs_of(h + meta_entries(m))) == meta_map(m),
    decreases m.len(),
{
    reveal_strlit("x-ms-meta-");
    assert(meta_prefix().len() == 10);
    if m.len() == 0 {
        assert(h + meta_entries(m) =~= h);
        lemma_meta_pairs_of_meta_free(h);
        assert(meta_map(meta_pairs_of(h)) =~= meta_map(m));
    } else {
        let prev = m.drop_last();
        let whole = h + meta_entries(m);
        assert(whole.drop_last() =~= h + meta_entries(prev));
        assert(whole.last() == (meta_prefix() + m.last().0, m.last().1));
        let full_name = meta_prefix() + m.last().0;
        assert(full_name.subrange(0, 10) =~= meta_prefix());
        assert(crate::metadata::is_meta_name(full_name));
        assert(full_name.skip(10) =~= m.last().0);
        lemma_metadata_round_trip(h, prev);
        let rest = meta_pairs_of(h + meta_entries(prev));
        assert(meta_pairs_of(whole) == rest.push((m.last().0, m.last().1)));
        assert(rest.push((m.last().0, m.last().1)).drop_last() =~= rest);
        assert(rest.push((m.last().0, m.last().1)).last() == (m.last().0, m.last().1));
        assert(meta_map(meta_pairs_of(whole)) == meta_map(rest).insert(m.last().0, m.last().1));
        assert(meta_map(m) == meta_map(prev).insert(m.last().0, m.last().1));
    }
}

/// The response headers every storage operation returns.
#[derive(Debug, Clone)]
pub struct CommonStorageResponseHeaders {
    pub request_id: RequestId,
    pub client_request_id: Option<String>,
    pub version: String,
    pub date: Timestamp,
    pub server: String,
}

/// Spec-level image of [`CommonStorageResponseHeaders`].
pub struct CommonV {
    pub request_id: u128,
    pub client_request_id: Option<Seq<char>>,
    pub version: Seq<char>,
    pub date: i64,
    pub server: Seq<char>,
}

impl View for CommonStorageResponseHeaders {
    type V = CommonV;

    open spec fn view(&self) -> CommonV {
        CommonV {
            request_id: self.request_id.value,
            client_request_id: match &self.client_request_id {
                Some(s) => Some(s@),
                None => None,
            },
            version: self.version@,
            date: self.date.secs,
            server: self.server@,
        }
    }
}

/// What decoding the common response headers returns: the mandatory request
/// id, version, date and server fail with a missing-header error when
/// absent; the client request id is optional; malformed text fails with the
/// field's malformed error.
pub open spec fn spec_common_from_headers(h: Seq<(Seq<char>, Seq<char>)>) -> Result<
    CommonV,
    ErrorV,
> {
    match lookup(h, "x-ms-request-id"@) {
        None => Err(ErrorV::MissingHeader("x-ms-request-id"@)),
        Some(rid_raw) => match parsed_uuid(rid_raw) {
            None => Err(ErrorV::MalformedHeaderValue(rid_raw)),
            Some(rid) => match lookup(h, "x-ms-version"@) {
                None => Err(ErrorV::MissingHeader("x-ms-version"@)),
                Some(ver) => match lookup(h, "date"@) {
                    None => Err(ErrorV::MissingHeader("date"@)),
                    Some(d_raw) => match parsed_rfc2822(d_raw) {
                        None => Err(ErrorV::MalformedTimestamp(d_raw)),
                        Some(secs) => match lookup(h, "server"@) {
                            None => Err(ErrorV::MissingHeader("server"@)),
                            Some(srv) => Ok(
                                CommonV {
                                    request_id: rid,
                                    client_request_id: lookup(h, "x-ms-client-request-id"@),
                                    version: ver,
                                    date: secs,
                                    server: srv,
                                },
                            ),
                        },
                    },
                },
            },
        },
    }
}

impl CommonStorageResponseHeaders {
    /// Decodes the common response headers from a response header map.
    pub fn from_headers(headers: &Headers) -> (r: Result<CommonStorageResponseHeaders, Error>)
        ensures
            (match r {
                Ok(c) => spec_common_from_headers(headers@) == Ok::<CommonV, ErrorV>(c@),
                Err(e) => spec_common_from_headers(headers@) == Err::<CommonV, ErrorV>(e@),
            }),
    {
        let rid_raw = match headers.get("x-ms-request-id") {
            None => {
                return Err(Error::MissingHeader("x-ms-request-id".to_owned()));
            },
            Some(r) => r,
        };
        let request_id = match uuid_parse(rid_raw.as_str()) {
            None => {
                return Err(Error::MalformedHeaderValue(rid_raw));
            },
            Some(v) => RequestId { value: v },
        };
        let client_request_id = headers.get("x-ms-client-request-id");
        let version = match headers.get("x-ms-version") {
            None => {
                return Err(Error::MissingHeader("x-ms-version".to_owned()));
            },
            Some(v) => v,
        };
        let date_raw = match headers.get("date") {
            None => {
                return Err(Error::MissingHeader("date".to_owned()));
            },
            Some(v) => v,
        };
        let date = match rfc2822_parse(date_raw.as_str()) {
            None => {
                return Err(Error::MalformedTimestamp(date_raw));
            },
            Some(secs) => Timestamp { secs },
        };
        let server = match headers.get("server") {
            None => {
                return Err(Error::MissingHeader("server".to_owned()));
            },
            Some(v) => v,
        };
        Ok(
            CommonStorageResponseHeaders {
                request_id,
                client_request_id,
                version,
                date,
                server,
            },
        )
    }
}

} // verus!
