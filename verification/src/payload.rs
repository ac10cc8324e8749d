//! The wire text of a frame: what counts as well formed, and its decoding.
//!
//! A frame travels as base64 text, in either the standard or the URL-safe
//! alphabet, with optional line breaks and optional `=` padding at the end.
//! The text may carry a label in front, as a `data:` URI does: if there is a
//! comma, everything up to the first one is ignored.

use crate::frame::Frame;
use vstd::prelude::*;
use vstd::string::StringExecFns;

verus! {

/// One message as it arrives from a client.
#[derive(Debug, Clone, PartialEq, Eq)]
pub enum Message {
    /// Text; a frame is expected to come as text.
    Text(String),
    /// Raw bytes; never taken for a frame.
    Binary(Vec<u8>),
}

/// Why a message was not turned into a frame.
#[derive(Debug, Clone, Copy, PartialEq, Eq, Structural)]
pub enum Rejection {
    /// The message was binary, not text.
    WrongType,
    /// The text, less its label, is not base64.
    Malformed,
    /// The decoded payload is no longer than the policy's minimum.
    Undersized,
}

/// Payloads of at most this many bytes are dropped by the standard policy:
/// no image format fits a picture into the length of a file signature.
pub const DEFAULT_MIN_LEN: usize = 8;

/// Decides which decoded payloads are passed on as frames.
#[derive(Debug, Clone, Copy, PartialEq, Eq, Structural)]
pub struct IngestPolicy {
    /// A payload must be longer than this many bytes to be passed on.
    pub min_len: usize,
}

/// A character that carries six bits of payload.
pub open spec fn is_sextet(c: char) -> bool {
    ||| 'A' <= c <= 'Z'
    ||| 'a' <= c <= 'z'
    ||| '0' <= c <= '9'
    ||| c == '+'
    ||| c == '-'
    ||| c == '/'
    ||| c == '_'
}

/// A carriage return or line feed, which the decoder skips.
pub open spec fn is_line_break(c: char) -> bool {
    c == '\r' || c == '\n'
}

/// Index of the first `needle` in `s`, or `s.len()` if there is none.
pub open spec fn first_position(s: Seq<char>, needle: char) -> int
    decreases s.len(),
{
    if s.len() == 0 {
        0
    } else if s[0] == needle {
        0
    } else {
        1 + first_position(s.drop_first(), needle)
    }
}

/// How many characters of `s` carry payload bits.
pub open spec fn sextet_count(s: Seq<char>) -> nat
    decreases s.len(),
{
    if s.len() == 0 {
        0
    } else {
        sextet_count(s.drop_last()) + if is_sextet(s.last()) {
            1nat
        } else {
            0nat
        }
    }
}

/// Number of bytes that `sextets` payload characters decode to.
pub open spec fn decoded_len(sextets: nat) -> nat {
    3 * (sextets / 4) + if sextets % 4 == 2 {
        1nat
    } else if sextets % 4 == 3 {
        2nat
    } else {
        0nat
    }
}

/// Base64 that decodes: payload characters and line breaks up to the first
/// `=`, nothing but `=` and line breaks from there on, and a number of payload
/// characters that does not leave a single dangling sextet.
pub open spec fn base64_well_formed(s: Seq<char>) -> bool {
    let stop = first_position(s, '=');
    &&& forall|i: int| 0 <= i < stop ==> is_sextet(#[trigger] s[i]) || is_line_break(s[i])
    &&& forall|i: int| stop <= i < s.len() ==> #[trigger] s[i] == '=' || is_line_break(s[i])
    &&& sextet_count(s) % 4 != 1
}

/// The six bits that a payload character stands for.
pub open spec fn sextet_value(c: char) -> int {
    if 'A' <= c <= 'Z' {
        c as int - 'A' as int
    } else if 'a' <= c <= 'z' {
        c as int - 'a' as int + 26
    } else if '0' <= c <= '9' {
        c as int - '0' as int + 52
    } else if c == '+' || c == '-' {
        62
    } else {
        63
    }
}

/// The values of the payload characters of `s`, in order.
pub open spec fn sextets_of(s: Seq<char>) -> Seq<int>
    decreases s.len(),
{
    if s.len() == 0 {
        Seq::empty()
    } else {
        let earlier = sextets_of(s.drop_last());
        if is_sextet(s.last()) {
            earlier.push(sextet_value(s.last()))
        } else {
            earlier
        }
    }
}

/// The bytes that a run of sextets spells: every four make three bytes, a
/// tail of three makes two, a tail of two makes one, and the bits left over
/// in a tail are dropped.
pub open spec fn bytes_of(v: Seq<int>) -> Seq<u8>
    decreases v.len(),
{
    if v.len() >= 4 {
        seq![
            (v[0] * 4 + v[1] / 16) as u8,
            ((v[1] % 16) * 16 + v[2] / 4) as u8,
            ((v[2] % 4) * 64 + v[3]) as u8,
        ] + bytes_of(v.skip(4))
    } else if v.len() == 3 {
        seq![(v[0] * 4 + v[1] / 16) as u8, ((v[1] % 16) * 16 + v[2] / 4) as u8]
    } else if v.len() == 2 {
        seq![(v[0] * 4 + v[1] / 16) as u8]
    } else {
        Seq::empty()
    }
}

/// Whether the wire text carries a label: it does if it holds a comma.
pub open spec fn has_label(text: Seq<char>) -> bool {
    first_position(text, ',') < text.len()
}

/// The part of the wire text that holds the base64: all after the first
/// comma, and the whole text if there is no comma.
pub open spec fn encoded_part(text: Seq<char>) -> Seq<char> {
    if has_label(text) {
        text.skip(first_position(text, ',') + 1)
    } else {
        text
    }
}

/// Wire text that can be decoded: less its label, it is well-formed base64.
pub open spec fn wire_text_well_formed(text: Seq<char>) -> bool {
    base64_well_formed(encoded_part(text))
}

/// The payload that wire text decodes to.
pub open spec fn payload_bytes(text: Seq<char>) -> Seq<u8> {
    bytes_of(sextets_of(encoded_part(text)))
}

/// Length in bytes of the payload that wire text decodes to.
pub open spec fn payload_len(text: Seq<char>) -> nat {
    decoded_len(sextet_count(encoded_part(text)))
}

/// `first_position` lies in range, nothing before it is the needle, and it
/// points at the needle unless it ran off the end.
pub proof fn lemma_first_position(s: Seq<char>, needle: char)
    ensures
        0 <= first_position(s, needle) <= s.len(),
        forall|j: int| 0 <= j < first_position(s, needle) ==> #[trigger] s[j] != needle,
        first_position(s, needle) < s.len() ==> s[first_position(s, needle)] == needle,
    decreases s.len(),
{
    if s.len() != 0 && s[0] != needle {
        let rest = s.drop_first();
        lemma_first_position(rest, needle);
        assert forall|j: int| 0 <= j < first_position(s, needle) implies #[trigger] s[j]
            != needle by {
            if j > 0 {
                assert(s[j] == rest[j - 1]);
            }
        }
        if first_position(s, needle) < s.len() {
            assert(s[first_position(s, needle)] == rest[first_position(rest, needle)]);
        }
    }
}

/// An index with the three properties of `lemma_first_position` is the first
/// position.
pub proof fn lemma_first_position_unique(s: Seq<char>, needle: char, k: int)
    requires
        0 <= k <= s.len(),
        forall|j: int| 0 <= j < k ==> #[trigger] s[j] != needle,
        k < s.len() ==> s[k] == needle,
    ensures
        first_position(s, needle) == k,
{
    lemma_first_position(s, needle);
    let p = first_position(s, needle);
    if p < k {
        assert(s[p] != needle);
    } else if k < p {
        assert(s[k] != needle);
    }
}

/// Counting over a sequence that grew by one character at the end.
pub proof fn lemma_sextet_count_push(s: Seq<char>, c: char)
    ensures
        sextet_count(s.push(c)) == sextet_count(s) + if is_sextet(c) {
            1nat
        } else {
            0nat
        },
{
    assert(s.push(c).drop_last() =~= s);
}

/// There are never more payload characters than characters.
pub proof fn lemma_sextet_count_bound(s: Seq<char>)
    ensures
        sextet_count(s) <= s.len(),
    decreases s.len(),
{
    if s.len() != 0 {
        lemma_sextet_count_bound(s.drop_last());
    }
}

/// There are as many sextets as payload characters.
pub proof fn lemma_sextets_len(s: Seq<char>)
    ensures
        sextets_of(s).len() == sextet_count(s),
    decreases s.len(),
{
    if s.len() != 0 {
        lemma_sextets_len(s.drop_last());
    }
}

/// A run of sextets spells as many bytes as `decoded_len` says.
pub proof fn lemma_bytes_len(v: Seq<int>)
    ensures
        bytes_of(v).len() == decoded_len(v.len()),
    decreases v.len(),
{
    if v.len() >= 4 {
        lemma_bytes_len(v.skip(4));
    }
}

/// The payload has the length that `payload_len` says.
pub proof fn lemma_payload_len(text: Seq<char>)
    ensures
        payload_bytes(text).len() == payload_len(text),
{
    lemma_sextets_len(encoded_part(text));
    lemma_bytes_len(sextets_of(encoded_part(text)));
}

/// Where a scan of the wire text stands.
enum Scan {
    /// Inside the label.
    Label,
    /// In the encoded part, no `=` seen yet.
    Data,
    /// Past the first `=`.
    Padding,
}

/// Tells whether `c` carries payload bits.
pub fn char_is_sextet(c: char) -> (r: bool)
    ensures
        r == is_sextet(c),
{
    (c >= 'A' && c <= 'Z') || (c >= 'a' && c <= 'z') || (c >= '0' && c <= '9') || c == '+' || c
        == '-' || c == '/' || c == '_'
}

/// Tells whether `text` holds a comma.
pub fn text_has_label(text: &str) -> (found: bool)
    ensures
        found == has_label(text@),
{
    for c in it: text.chars()
        invariant
            it.seq() == text@,
            forall|j: int| 0 <= j < it.index() ==> #[trigger] text@[j] != ',',
    {
        if c == ',' {
            proof {
                lemma_first_position_unique(text@, ',', it.index() as int);
            }
            return true;
        }
    }
    proof {
        lemma_first_position_unique(text@, ',', text@.len() as int);
    }
    false
}

/// Tells whether `text` is wire text that decodes.
pub fn is_well_formed(text: &str) -> (ok: bool)
    ensures
        ok == wire_text_well_formed(text@),
{
    let labelled = text_has_label(text);
    let mut scan = if labelled {
        Scan::Label
    } else {
        Scan::Data
    };
    let mut modulus: u8 = 0;
    let ghost mut start: int = 0;
    let ghost mut stop: int = 0;
    proof {
        assert(text@.subrange(0, 0) =~= Seq::<char>::empty());
    }
    for c in it: text.chars()
        invariant
            it.seq() == text@,
            modulus < 4,
            labelled == has_label(text@),
            scan is Label ==> {
                &&& labelled
                &&& modulus == 0
                &&& forall|j: int| 0 <= j < it.index() ==> #[trigger] text@[j] != ','
            },
            !(scan is Label) ==> {
                &&& 0 <= start <= it.index()
                &&& encoded_part(text@) == text@.skip(start)
                &&& modulus == sextet_count(text@.subrange(start, it.index() as int)) % 4
            },
            scan is Data ==> forall|j: int|
                start <= j < it.index() ==> is_sextet(#[trigger] text@[j]) || is_line_break(
                    text@[j],
                ),
            scan is Padding ==> {
                &&& start <= stop < it.index()
                &&& text@[stop] == '='
                &&& forall|j: int|
                    start <= j < stop ==> is_sextet(#[trigger] text@[j]) || is_line_break(
                        text@[j],
                    )
                &&& forall|j: int|
                    stop <= j < it.index() ==> #[trigger] text@[j] == '=' || is_line_break(
                        text@[j],
                    )
            },
    {
        let ghost i = it.index() as int;
        assert(c == text@[i]);
        proof {
            if !(scan is Label) {
                assert(text@.subrange(start, i + 1) =~= text@.subrange(start, i).push(c));
                lemma_sextet_count_push(text@.subrange(start, i), c);
            }
        }
        match scan {
            Scan::Label => {
                if c == ',' {
                    proof {
                        start = i + 1;
                        lemma_first_position_unique(text@, ',', i);
                        assert(text@.subrange(i + 1, i + 1) =~= Seq::<char>::empty());
                    }
                    scan = Scan::Data;
                }
            },
            Scan::Data => {
                if c == '=' {
                    proof {
                        stop = i;
                    }
                    scan = Scan::Padding;
                } else if char_is_sextet(c) {
                    modulus = if modulus == 3 {
                        0
                    } else {
                        modulus + 1
                    };
                } else if !(c == '\r' || c == '\n') {
                    proof {
                        lemma_stray_in_data(text@, start, i);
                    }
                    return false;
                }
            },
            Scan::Padding => {
                if !(c == '=' || c == '\r' || c == '\n') {
                    proof {
                        lemma_stray_in_padding(text@, start, stop, i);
                    }
                    return false;
                }
            },
        }
    }
    proof {
        let n = text@.len() as int;
        lemma_first_position(text@, ',');
        let part = encoded_part(text@);
        match scan {
            Scan::Label => {},
            Scan::Data => {
                assert(part =~= text@.subrange(start, n));
                assert forall|j: int| 0 <= j < part.len() implies #[trigger] part[j] != '=' by {
                    assert(part[j] == text@[start + j]);
                }
                lemma_first_position_unique(part, '=', part.len() as int);
                assert forall|j: int| 0 <= j < part.len() implies is_sextet(#[trigger] part[j])
                    || is_line_break(part[j]) by {
                    assert(part[j] == text@[start + j]);
                }
            },
            Scan::Padding => {
                assert(part =~= text@.subrange(start, n));
                let at = stop - start;
                assert forall|j: int| 0 <= j < at implies #[trigger] part[j] != '=' by {
                    assert(part[j] == text@[start + j]);
                }
                assert(part[at] == text@[stop]);
                lemma_first_position_unique(part, '=', at);
                assert forall|j: int| 0 <= j < at implies is_sextet(#[trigger] part[j])
                    || is_line_break(part[j]) by {
                    assert(part[j] == text@[start + j]);
                }
                assert forall|j: int| at <= j < part.len() implies #[trigger] part[j] == '='
                    || is_line_break(part[j]) by {
                    assert(part[j] == text@[start + j]);
                }
            },
        }
    }
    match scan {
        Scan::Label => false,
        _ => modulus != 1,
    }
}

/// A character of the encoded part, before any `=`, that is neither payload,
/// line break nor `=` makes the text malformed.
proof fn lemma_stray_in_data(text: Seq<char>, start: int, at: int)
    requires
        0 <= start <= at < text.len(),
        encoded_part(text) == text.skip(start),
        forall|j: int| start <= j < at ==> is_sextet(#[trigger] text[j]) || is_line_break(text[j]),
        !is_sextet(text[at]),
        !is_line_break(text[at]),
        text[at] != '=',
    ensures
        !wire_text_well_formed(text),
{
    let part = encoded_part(text);
    let k = at - start;
    lemma_first_position(part, '=');
    let stop = first_position(part, '=');
    assert(part[k] == text[at]);
    if stop <= k {
        assert(part[stop] == text[start + stop]);
    }
}

/// A character after the first `=` that is neither `=` nor a line break makes
/// the text malformed.
proof fn lemma_stray_in_padding(text: Seq<char>, start: int, stop: int, at: int)
    requires
        0 <= start <= stop < at < text.len(),
        encoded_part(text) == text.skip(start),
        text[stop] == '=',
        text[at] != '=',
        !is_line_break(text[at]),
    ensures
        !wire_text_well_formed(text),
{
    let part = encoded_part(text);
    let k = at - start;
    lemma_first_position(part, '=');
    let first = first_position(part, '=');
    assert(part[k] == text[at]);
    assert(part[stop - start] == text[stop]);
    assert(first <= stop - start);
}

/// Decodes labelled wire text with `image_base64::from_base64`.
///
/// Trusted: that function drops everything up to and including the first
/// comma and base64-decodes the rest. Each payload character stands for six
/// bits, by either alphabet; line breaks and padding stand for none; the bits
/// are cut into bytes from the front and an incomplete last byte is dropped.
/// It panics on text without a comma and on a remainder that is not base64,
/// which the precondition rules out.
#[verifier::external_body]
fn from_base64(text: &str) -> (payload: Vec<u8>)
    requires
        has_label(text@),
        wire_text_well_formed(text@),
    ensures
        payload@ == payload_bytes(text@),
{
    image_base64::from_base64(text.to_owned())
}

/// Decodes wire text, or tells that it is malformed. Text without a label is
/// given an empty one for the decoder's sake.
pub fn decode(text: &str) -> (payload: Option<Vec<u8>>)
    ensures
        payload is Some <==> wire_text_well_formed(text@),
        payload matches Some(bytes) ==> bytes@ == payload_bytes(text@) && bytes@.len()
            == payload_len(text@),
{
    proof {
        lemma_payload_len(text@);
    }
    if !is_well_formed(text) {
        None
    } else if text_has_label(text) {
        Some(from_base64(text))
    } else {
        let labelled = String::from_str(",").concat(text);
        proof {
            reveal_strlit(",");
            assert(labelled@[0] == ',');
            assert(labelled@.skip(1) =~= text@);
        }
        Some(from_base64(labelled.as_str()))
    }
}

impl Rejection {
    /// A short name for the reason, fit for a log line.
    pub fn as_str(&self) -> (name: &'static str)
        ensures
            name@ == match self {
                Rejection::WrongType => "wrong type"@,
                Rejection::Malformed => "malformed"@,
                Rejection::Undersized => "undersized"@,
            },
    {
        match self {
            Rejection::WrongType => "wrong type",
            Rejection::Malformed => "malformed",
            Rejection::Undersized => "undersized",
        }
    }
}

impl IngestPolicy {
    /// A policy that passes on payloads longer than `min_len` bytes.
    pub fn new(min_len: usize) -> (policy: IngestPolicy)
        ensures
            policy.min_len == min_len,
    {
        IngestPolicy { min_len }
    }

    /// The policy with the default minimum length.
    pub fn standard() -> (policy: IngestPolicy)
        ensures
            policy.min_len == DEFAULT_MIN_LEN,
    {
        IngestPolicy { min_len: DEFAULT_MIN_LEN }
    }

    /// Why `message` yields no frame under this policy, or `None` if it
    /// yields one.
    pub open spec fn rejection(&self, message: &Message) -> Option<Rejection> {
        match message {
            Message::Binary(_) => Some(Rejection::WrongType),
            Message::Text(text) => if !wire_text_well_formed(text@) {
                Some(Rejection::Malformed)
            } else if payload_len(text@) <= self.min_len {
                Some(Rejection::Undersized)
            } else {
                None
            },
        }
    }

    /// Makes a frame of a decoded payload if it is long enough.
    pub fn accept(&self, payload: Vec<u8>) -> (r: Result<Frame, Rejection>)
        ensures
            payload@.len() > self.min_len ==> (r matches Ok(frame) && frame@ == payload@),
            payload@.len() <= self.min_len ==> r == Err::<Frame, Rejection>(Rejection::Undersized),
    {
        if payload.len() > self.min_len {
            Ok(Frame::new(payload))
        } else {
            Err(Rejection::Undersized)
        }
    }

    /// Turns a message into a frame, or says why not.
    pub fn ingest(&self, message: &Message) -> (r: Result<Frame, Rejection>)
        ensures
            match r {
                Ok(frame) => {
                    &&& self.rejection(message) is None
                    &&& message matches Message::Text(text)
                    &&& frame@ == payload_bytes(text@)
                    &&& frame@.len() == payload_len(text@)
                },
                Err(reason) => self.rejection(message) == Some(reason),
            },
    {
        match message {
            Message::Binary(_) => Err(Rejection::WrongType),
            Message::Text(text) => match decode(text.as_str()) {
                Some(payload) => self.accept(payload),
                None => Err(Rejection::Malformed),
            },
        }
    }
}

/// A label changes nothing: labelled text decodes as the text behind the
/// label does on its own.
pub proof fn lemma_label_is_ignored(label: Seq<char>, encoded: Seq<char>)
    requires
        forall|j: int| 0 <= j < label.len() ==> #[trigger] label[j] != ',',
        forall|j: int| 0 <= j < encoded.len() ==> #[trigger] encoded[j] != ',',
    ensures
        encoded_part(label + seq![','] + encoded) == encoded,
        encoded_part(encoded) == encoded,
        wire_text_well_formed(label + seq![','] + encoded) == wire_text_well_formed(encoded),
        payload_bytes(label + seq![','] + encoded) == payload_bytes(encoded),
{
    let text = label + seq![','] + encoded;
    lemma_first_position_unique(text, ',', label.len() as int);
    lemma_first_position_unique(encoded, ',', encoded.len() as int);
    assert(text.skip(label.len() as int + 1) =~= encoded);
}

/// Text of at most `min_len` characters never yields a frame: its payload is
/// shorter still.
pub proof fn lemma_short_text_rejected(policy: IngestPolicy, message: Message)
    requires
        message matches Message::Text(text) && text@.len() <= policy.min_len,
    ensures
        policy.rejection(&message) is Some,
{
    if let Message::Text(text) = message {
        lemma_payload_len_bound(text@);
    }
}

/// A payload is never longer than the text that encodes it.
pub proof fn lemma_payload_len_bound(text: Seq<char>)
    ensures
        payload_len(text) <= text.len(),
{
    lemma_first_position(text, ',');
    let part = encoded_part(text);
    lemma_sextet_count_bound(part);
    let n = sextet_count(part);
    assert(decoded_len(n) <= n) by (nonlinear_arith);
}

} // verus!
