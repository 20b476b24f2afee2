//! Identifiers of the mailing-list graph: `mlh:1:<kind>:<40 hex digits>`,
//! a namespace version, a node kind and a SHA-1 hash.
use vstd::prelude::*;
use vstd::string::StringSliceAdditionalSpecFns;

use crate::mlhtypes::{kind_index, kind_name, kind_named, type_of_index, NodeType};
use crate::text::{chars_of, decimal, decimal_string, find, find_char, slice_chars, string_of};

verus! {

/// The size of the binary form of an identifier.
pub const BYTES_SIZE: usize = 22;

/// An identifier of a node of the graph.
#[derive(Debug, Clone, Copy, PartialEq, Eq, Hash)]
pub struct MLHID {
    /// The namespace version.
    pub namespace_version: u8,
    /// The kind of node.
    pub node_type: NodeType,
    /// The SHA-1 hash of the node.
    pub hash: [u8; 20],
}

/// Why a binary identifier was refused.
#[derive(Debug, Clone, PartialEq, Eq)]
pub enum BinMLHIDDeserializationError {
    Version(u8),
    Type(u8),
}

/// Why a textual identifier was refused.
#[derive(Debug, Clone, PartialEq, Eq, Hash)]
pub enum StrMLHIDDeserializationError {
    Syntax(&'static str),
    Namespace(String),
    Version(String),
    HashLength { expected: usize, got: usize },
    Type(String),
    HashAlphabet(String),
}

/// What a `StrMLHIDDeserializationError` says, with its text as characters.
pub enum TextErrorView {
    Syntax(Seq<char>),
    Namespace(Seq<char>),
    Version(Seq<char>),
    HashLength { expected: usize, got: usize },
    Type(Seq<char>),
    HashAlphabet(Seq<char>),
}

impl View for StrMLHIDDeserializationError {
    type V = TextErrorView;

    open spec fn view(&self) -> TextErrorView {
        match self {
            StrMLHIDDeserializationError::Syntax(m) => TextErrorView::Syntax(m@),
            StrMLHIDDeserializationError::Namespace(t) => TextErrorView::Namespace(t@),
            StrMLHIDDeserializationError::Version(t) => TextErrorView::Version(t@),
            StrMLHIDDeserializationError::HashLength { expected, got } => TextErrorView::HashLength {
                expected: *expected,
                got: *got,
            },
            StrMLHIDDeserializationError::Type(t) => TextErrorView::Type(t@),
            StrMLHIDDeserializationError::HashAlphabet(t) => TextErrorView::HashAlphabet(t@),
        }
    }
}

/// The complaint about a text with no namespace version.
pub const NO_VERSION: &'static str = "MLHID is too short (no namespace version)";

/// The complaint about a text with no kind.
pub const NO_TYPE: &'static str = "MLHID is too short (no object type)";

/// The complaint about a text with no hash.
pub const NO_HASH: &'static str = "MLHID is too short (no object hash)";

/// `s` up to the position `i`, or all of `s` without one.
pub open spec fn up_to(s: Seq<char>, i: Option<nat>) -> Seq<char> {
    match i {
        Some(k) => s.subrange(0, k as int),
        None => s,
    }
}

/// `s` after the position `k`.
pub open spec fn past(s: Seq<char>, k: nat) -> Seq<char> {
    s.subrange(k + 1 as int, s.len() as int)
}

/// How the text `s` reads as an identifier: its first three `:` part the
/// namespace, the version, the kind and the hash; the kind and the hash
/// bytes on success.
pub open spec fn parse_text_spec(s: Seq<char>) -> Result<(NodeType, Seq<u8>), TextErrorView> {
    let c1 = find(s, ':');
    let ns = up_to(s, c1);
    if ns != seq!['m', 'l', 'h'] {
        Err(TextErrorView::Namespace(ns))
    } else {
        match c1 {
            None => Err(TextErrorView::Syntax(NO_VERSION@)),
            Some(k1) => {
                let r1 = past(s, k1);
                let c2 = find(r1, ':');
                let ver = up_to(r1, c2);
                if ver != seq!['1'] {
                    Err(TextErrorView::Version(ver))
                } else {
                    match c2 {
                        None => Err(TextErrorView::Syntax(NO_TYPE@)),
                        Some(k2) => {
                            let r2 = past(r1, k2);
                            let c3 = find(r2, ':');
                            match c3 {
                                None => Err(TextErrorView::Syntax(NO_HASH@)),
                                Some(k3) => {
                                    let ty = up_to(r2, c3);
                                    let hex = past(r2, k3);
                                    let hb = vstd::utf8::encode_utf8(hex);
                                    if hb.len() != 40 {
                                        Err(TextErrorView::HashLength { expected: 40, got: hb.len() as usize })
                                    } else {
                                        match kind_named(ty) {
                                            None => Err(TextErrorView::Type(ty)),
                                            Some(t) => if all_hex(hb) {
                                                Ok((t, hex_decoded(hb)))
                                            } else {
                                                Err(TextErrorView::HashAlphabet(hex))
                                            },
                                        }
                                    }
                                },
                            }
                        },
                    }
                }
            },
        }
    }
}

proof fn lemma_utf8_len(chars: Seq<char>)
    ensures
        chars.len() <= vstd::utf8::encode_utf8(chars).len() <= 4 * chars.len(),
    decreases chars.len(),
{
    if chars.len() > 0 {
        lemma_utf8_len(chars.drop_first());
        let e = vstd::utf8::encode_scalar(chars[0] as u32);
        assert(1 <= e.len() <= 4);
    }
}

/// The SHA-1 digest of `data`.
pub uninterp spec fn sha1_digest(data: Seq<u8>) -> Seq<u8>;

/// Relies on `sha1::Sha1` through `Digest::digest`: the SHA-1 digest of
/// `data`, which depends on `data` alone.
#[verifier::external_body]
fn sha1_of(data: &[u8]) -> (r: [u8; 20])
    ensures
        r@ == sha1_digest(data@),
{
    <sha1::Sha1 as sha1::Digest>::digest(data).into()
}

/// The value of an ASCII hex digit of either case.
pub open spec fn hex_value(b: u8) -> Option<u8> {
    if 48 <= b <= 57 {
        Some((b - 48) as u8)
    } else if 97 <= b <= 102 {
        Some((b - 87) as u8)
    } else if 65 <= b <= 70 {
        Some((b - 55) as u8)
    } else {
        None
    }
}

pub open spec fn all_hex(s: Seq<u8>) -> bool {
    forall|i: int| 0 <= i < s.len() ==> (#[trigger] hex_value(s[i])) is Some
}

/// The bytes that the hex digit pairs of `s` write, high digit first.
pub open spec fn hex_decoded(s: Seq<u8>) -> Seq<u8> {
    Seq::new(
        s.len() / 2,
        |i: int| (hex_value(s[2 * i])->0 * 16 + hex_value(s[2 * i + 1])->0) as u8,
    )
}

/// Relies on `faster_hex::hex_decode`: an even number of ASCII hex digits,
/// of either case, decodes into half as many bytes, the first digit of each
/// pair the high one; any other byte is an error.
#[verifier::external_body]
fn decode_hash(src: &[u8]) -> (r: Option<[u8; 20]>)
    requires
        src@.len() == 40,
    ensures
        r is Some <==> all_hex(src@),
        r matches Some(h) ==> h@ == hex_decoded(src@),
{
    let mut hash = [0u8; 20];
    match faster_hex::hex_decode(src, &mut hash) {
        Ok(_) => Some(hash),
        Err(_) => None,
    }
}

/// The lowercase hex digit of `d < 16`.
pub open spec fn hex_digit(d: u8) -> char {
    if d < 10 {
        ((48 + d) as u8) as char
    } else {
        ((87 + d) as u8) as char
    }
}

/// `bytes` in lowercase hex, two digits each.
pub open spec fn hex_lower(bytes: Seq<u8>) -> Seq<char>
    decreases bytes.len(),
{
    if bytes.len() == 0 {
        Seq::empty()
    } else {
        hex_lower(bytes.drop_last()) + seq![
            hex_digit(bytes.last() / 16),
            hex_digit(bytes.last() % 16),
        ]
    }
}

/// The text of an identifier.
pub open spec fn mlhid_text(id: MLHID) -> Seq<char> {
    seq!['m', 'l', 'h', ':'] + decimal(id.namespace_version as nat) + seq![':'] + kind_name(
        id.node_type,
    ) + seq![':'] + hex_lower(id.hash@)
}

/// The rank of each kind in alphabetical order of its name.
pub open spec fn kind_rank(t: NodeType) -> u8 {
    match t {
        NodeType::EmailBody => 0,
        NodeType::EmailMessage => 1,
        NodeType::MailingList => 2,
        NodeType::Origin => 3,
        NodeType::Patch => 4,
        NodeType::Person => 5,
    }
}

/// The bytes identifiers are sorted by, most significant first: the
/// namespace version, the kind's rank, then the hash.
pub open spec fn radix_key(id: MLHID) -> Seq<u8> {
    seq![id.namespace_version, kind_rank(id.node_type)] + id.hash@
}

/// How `a` compares to `b` byte by byte, the first difference deciding.
pub open spec fn lex_order(a: Seq<u8>, b: Seq<u8>) -> core::cmp::Ordering
    decreases a.len(),
{
    if a.len() == 0 || b.len() == 0 {
        core::cmp::Ordering::Equal
    } else if a[0] < b[0] {
        core::cmp::Ordering::Less
    } else if a[0] > b[0] {
        core::cmp::Ordering::Greater
    } else {
        lex_order(a.drop_first(), b.drop_first())
    }
}

/// `s` without a leading `0x` or `0X`.
pub open spec fn strip_hex_prefix(s: Seq<u8>) -> Seq<u8> {
    if s.len() >= 2 && s[0] == 48 && (s[1] == 120 || s[1] == 88) {
        s.subrange(2, s.len() as int)
    } else {
        s
    }
}

/// Relies on `const_hex::const_decode_to_array`: an input of even length
/// that, after an optional `0x` or `0X`, holds exactly 40 ASCII hex digits of
/// either case decodes into 20 bytes, high digit first; any other input is
/// an error.
#[verifier::external_body]
fn decode_hash_literal(input: &[u8]) -> (r: Option<[u8; 20]>)
    ensures
        r is Some <==> (input@.len() % 2 == 0 && strip_hex_prefix(input@).len() == 40 && all_hex(
            strip_hex_prefix(input@),
        )),
        r matches Some(h) ==> h@ == hex_decoded(strip_hex_prefix(input@)),
{
    const_hex::const_decode_to_array::<20>(input).ok()
}

/// The identifier of kind `node_type` with the hash written in hex by
/// `hash` (40 digits, maybe after `0x`); `None` when `hash` is not that.
pub fn __parse_mlhid(node_type: NodeType, hash: &str) -> (r: Option<MLHID>)
    ensures
        ({
            let b = hash.spec_bytes();
            let ok = b.len() % 2 == 0 && strip_hex_prefix(b).len() == 40 && all_hex(
                strip_hex_prefix(b),
            );
            &&& ok ==> (r matches Some(id) && id.namespace_version == 1 && id.node_type == node_type
                && id.hash@ == hex_decoded(strip_hex_prefix(b)))
            &&& !ok ==> r is None
        }),
{
    match decode_hash_literal(hash.as_bytes()) {
        Some(h) => Some(MLHID { namespace_version: 1, node_type, hash: h }),
        None => None,
    }
}

proof fn lemma_find_after(a: Seq<char>, b: Seq<char>, c: char)
    requires
        forall|i: int| 0 <= i < a.len() ==> a[i] != c,
    ensures
        find(a + seq![c] + b, c) == Some(a.len()),
        up_to(a + seq![c] + b, Some(a.len())) == a,
        past(a + seq![c] + b, a.len()) == b,
    decreases a.len(),
{
    let s = a + seq![c] + b;
    assert(s.subrange(0, a.len() as int) =~= a);
    assert(s.subrange(a.len() + 1 as int, s.len() as int) =~= b);
    if a.len() > 0 {
        assert(s.drop_first() =~= a.drop_first() + seq![c] + b);
        lemma_find_after(a.drop_first(), b, c);
    }
}

proof fn lemma_hex_lower(bytes: Seq<u8>)
    ensures
        hex_lower(bytes).len() == 2 * bytes.len(),
        forall|k: int|
            0 <= k < bytes.len() ==> hex_lower(bytes)[2 * k] == hex_digit(#[trigger] bytes[k] / 16)
                && hex_lower(bytes)[2 * k + 1] == hex_digit(bytes[k] % 16),
    decreases bytes.len(),
{
    if bytes.len() > 0 {
        let p = bytes.drop_last();
        lemma_hex_lower(p);
        assert forall|k: int| 0 <= k < bytes.len() implies hex_lower(bytes)[2 * k] == hex_digit(
            #[trigger] bytes[k] / 16,
        ) && hex_lower(bytes)[2 * k + 1] == hex_digit(bytes[k] % 16) by {
            if k < p.len() {
                assert(p[k] == bytes[k]);
            }
        }
    }
}

proof fn lemma_hex_digit(d: u8)
    requires
        d < 16,
    ensures
        hex_value(hex_digit(d) as u8) == Some(d),
        '\0' <= hex_digit(d) <= '\u{7f}',
        hex_digit(d) != ':',
{
}

proof fn lemma_hex_text(hash: Seq<u8>)
    requires
        hash.len() == 20,
    ensures
        forall|i: int| 0 <= i < hex_lower(hash).len() ==> #[trigger] hex_lower(hash)[i] != ':',
        vstd::utf8::encode_utf8(hex_lower(hash)).len() == 40,
        all_hex(vstd::utf8::encode_utf8(hex_lower(hash))),
        hex_decoded(vstd::utf8::encode_utf8(hex_lower(hash))) == hash,
{
    let hex = hex_lower(hash);
    lemma_hex_lower(hash);
    assert forall|i: int| 0 <= i < hex.len() implies '\0' <= #[trigger] hex[i] <= '\u{7f}' && hex[i]
        != ':' && hex_value(hex[i] as u8) is Some by {
        let k = i / 2;
        assert(i == 2 * k || i == 2 * k + 1);
        let b = hash[k];
        lemma_hex_digit(b / 16);
        lemma_hex_digit(b % 16);
    }
    assert(vstd::utf8::is_ascii_chars(hex));
    vstd::utf8::is_ascii_chars_encode_utf8(hex);
    let hb = vstd::utf8::encode_utf8(hex);
    assert forall|i: int| 0 <= i < hb.len() implies (#[trigger] hex_value(hb[i])) is Some by {
        assert(hb[i] == hex[i] as u8);
    }
    assert forall|k: int| 0 <= k < 20 implies #[trigger] hex_decoded(hb)[k] == hash[k] by {
        let b = hash[k];
        lemma_hex_digit(b / 16);
        lemma_hex_digit(b % 16);
        assert(hb[2 * k] == hex[2 * k] as u8);
        assert(hb[2 * k + 1] == hex[2 * k + 1] as u8);
        assert((b / 16) * 16 + b % 16 == b);
    }
    assert(hex_decoded(hb) =~= hash);
}

proof fn lemma_kind_name_reads_back(t: NodeType)
    ensures
        kind_named(kind_name(t)) == Some(t),
        forall|i: int| 0 <= i < kind_name(t).len() ==> kind_name(t)[i] != ':',
{
    let e = kind_name(NodeType::EmailBody);
    let m = kind_name(NodeType::EmailMessage);
    let o = kind_name(NodeType::Origin);
    let l = kind_name(NodeType::MailingList);
    let p = kind_name(NodeType::Patch);
    let r = kind_name(NodeType::Person);
    assert(e[2] != m[2]);
    assert(o[0] != e[0] && o[0] != m[0]);
    assert(l[0] != e[0] && l[0] != m[0] && l[0] != o[0]);
    assert(p[0] != e[0] && p[0] != m[0] && p[0] != o[0] && p[0] != l[0]);
    assert(r[0] != e[0] && r[0] != m[0] && r[0] != o[0] && r[0] != l[0] && r[1] != p[1]);
}

/// An identifier of namespace version 1 reads back from its own text.
pub proof fn lemma_text_round_trip(id: MLHID)
    requires
        id.namespace_version == 1,
    ensures
        parse_text_spec(mlhid_text(id)) == Ok::<(NodeType, Seq<u8>), TextErrorView>(
            (id.node_type, id.hash@),
        ),
{
    let hash = id.hash@;
    assert(hash.len() == 20);
    let hex = hex_lower(hash);
    lemma_hex_text(hash);
    let name = kind_name(id.node_type);
    lemma_kind_name_reads_back(id.node_type);
    assert(decimal(1) =~= seq!['1']);
    let text = mlhid_text(id);
    let r2 = name + seq![':'] + hex;
    let r1 = seq!['1'] + seq![':'] + r2;
    assert(text =~= seq!['m', 'l', 'h'] + seq![':'] + r1);
    lemma_find_after(seq!['m', 'l', 'h'], r1, ':');
    lemma_find_after(seq!['1'], r2, ':');
    lemma_find_after(name, hex, ':');
}

/// An identifier of namespace version 1 reads back from its binary form:
/// the bytes `to_bytes` gives are those `from_bytes` accepts as that
/// identifier.
pub proof fn lemma_bytes_round_trip(id: MLHID)
    requires
        id.namespace_version == 1,
    ensures
        ({
            let b = seq![id.namespace_version, kind_index(id.node_type)] + id.hash@;
            &&& b[0] == 1
            &&& type_of_index(b[1]) == Some(id.node_type)
            &&& b.subrange(2, 22) == id.hash@
        }),
{
    let b = seq![id.namespace_version, kind_index(id.node_type)] + id.hash@;
    assert(b.subrange(2, 22) =~= id.hash@);
}

fn hex_digit_char(d: u8) -> (c: char)
    requires
        d < 16,
    ensures
        c == hex_digit(d),
{
    if d < 10 {
        ((48 + d) as u8) as char
    } else {
        ((87 + d) as u8) as char
    }
}

impl MLHID {
    /// The identifier of content `content` of kind `node_type`: the SHA-1
    /// hash of its UTF-8 bytes.
    pub fn from_content_str(node_type: NodeType, content: &str) -> (r: MLHID)
        ensures
            r.namespace_version == 1,
            r.node_type == node_type,
            r.hash@ == sha1_digest(content.spec_bytes()),
    {
        MLHID { namespace_version: 1, node_type, hash: sha1_of(content.as_bytes()) }
    }

    /// The identifier of a person, from how the person is identified.
    pub fn from_person_identification(identification: &str) -> (r: MLHID)
        ensures
            r.namespace_version == 1,
            r.node_type == NodeType::Person,
            r.hash@ == sha1_digest(identification.spec_bytes()),
    {
        MLHID::from_content_str(NodeType::Person, identification)
    }

    /// The identifier of an origin, from its URL.
    pub fn from_origin_url(origin: &str) -> (r: MLHID)
        ensures
            r.namespace_version == 1,
            r.node_type == NodeType::Origin,
            r.hash@ == sha1_digest(origin.spec_bytes()),
    {
        MLHID::from_content_str(NodeType::Origin, origin)
    }

    /// The binary form: the version, the kind's index, then the hash.
    pub fn to_bytes(&self) -> (r: [u8; 22])
        ensures
            r@ == seq![self.namespace_version, kind_index(self.node_type)] + self.hash@,
    {
        let mut r = [0u8; 22];
        r[0] = self.namespace_version;
        r[1] = self.node_type.to_u8();
        let mut i: usize = 0;
        while i < 20
            invariant
                0 <= i <= 20,
                r@.len() == 22,
                r@[0] == self.namespace_version,
                r@[1] == kind_index(self.node_type),
                forall|k: int| 0 <= k < i ==> r@[k + 2] == self.hash@[k],
            decreases 20 - i,
        {
            r[i + 2] = self.hash[i];
            i = i + 1;
        }
        assert(r@ =~= seq![self.namespace_version, kind_index(self.node_type)] + self.hash@);
        r
    }

    /// Reads the binary form; only namespace version 1 is known.
    pub fn from_bytes(value: [u8; 22]) -> (r: Result<MLHID, BinMLHIDDeserializationError>)
        ensures
            value@[0] != 1 ==> r == Err::<MLHID, BinMLHIDDeserializationError>(
                BinMLHIDDeserializationError::Version(value@[0]),
            ),
            value@[0] == 1 && type_of_index(value@[1]) is None ==> r == Err::<
                MLHID,
                BinMLHIDDeserializationError,
            >(BinMLHIDDeserializationError::Type(value@[1])),
            value@[0] == 1 && type_of_index(value@[1]) is Some ==> (r matches Ok(id) && id.namespace_version == 1
                && Some(id.node_type) == type_of_index(value@[1]) && id.hash@ == value@.subrange(
                2,
                22,
            )),
    {
        let namespace_version = value[0];
        if namespace_version != 1 {
            return Err(BinMLHIDDeserializationError::Version(namespace_version));
        }
        let node_type = match NodeType::from_u8(value[1]) {
            Ok(t) => t,
            Err(v) => {
                return Err(BinMLHIDDeserializationError::Type(v));
            },
        };
        let mut hash = [0u8; 20];
        let mut i: usize = 0;
        while i < 20
            invariant
                0 <= i <= 20,
                hash@.len() == 20,
                forall|k: int| 0 <= k < i ==> hash@[k] == value@[k + 2],
            decreases 20 - i,
        {
            hash[i] = value[i + 2];
            i = i + 1;
        }
        assert(hash@ =~= value@.subrange(2, 22));
        Ok(MLHID { namespace_version, node_type, hash })
    }

    /// Reads the text of an identifier, `mlh:1:<kind>:<40 hex digits>`.
    pub fn parse(value: &str) -> (r: Result<MLHID, StrMLHIDDeserializationError>)
        ensures
            match parse_text_spec(value@) {
                Ok((t, h)) => r matches Ok(id) && id.namespace_version == 1 && id.node_type == t
                    && id.hash@ == h,
                Err(e) => r matches Err(x) && x@ == e,
            },
    {
        let s = chars_of(value);
        let c1 = find_char(&s, ':');
        let ns = match c1 {
            Some(k) => slice_chars(&s, 0, k),
            None => slice_chars(&s, 0, s.len()),
        };
        assert(c1 is None ==> ns@ =~= s@);
        if !(ns.len() == 3 && ns[0] == 'm' && ns[1] == 'l' && ns[2] == 'h') {
            assert(ns@ != seq!['m', 'l', 'h']);
            return Err(StrMLHIDDeserializationError::Namespace(string_of(&ns)));
        }
        assert(ns@ =~= seq!['m', 'l', 'h']);
        let k1 = match c1 {
            Some(k) => k,
            None => {
                return Err(StrMLHIDDeserializationError::Syntax(NO_VERSION));
            },
        };
        let r1 = slice_chars(&s, k1 + 1, s.len());
        let c2 = find_char(&r1, ':');
        let ver = match c2 {
            Some(k) => slice_chars(&r1, 0, k),
            None => slice_chars(&r1, 0, r1.len()),
        };
        assert(c2 is None ==> ver@ =~= r1@);
        if !(ver.len() == 1 && ver[0] == '1') {
            assert(ver@ != seq!['1']);
            return Err(StrMLHIDDeserializationError::Version(string_of(&ver)));
        }
        assert(ver@ =~= seq!['1']);
        let k2 = match c2 {
            Some(k) => k,
            None => {
                return Err(StrMLHIDDeserializationError::Syntax(NO_TYPE));
            },
        };
        let r2 = slice_chars(&r1, k2 + 1, r1.len());
        let k3 = match find_char(&r2, ':') {
            Some(k) => k,
            None => {
                return Err(StrMLHIDDeserializationError::Syntax(NO_HASH));
            },
        };
        let ty = string_of(&slice_chars(&r2, 0, k3));
        let hex_chars = slice_chars(&r2, k3 + 1, r2.len());
        let hex = string_of(&hex_chars);
        proof {
            lemma_utf8_len(hex@);
        }
        let got = hex.as_str().len();
        if hex_chars.len() > 40 {
            return Err(StrMLHIDDeserializationError::HashLength { expected: 40, got });
        }
        if got != 40 {
            return Err(StrMLHIDDeserializationError::HashLength { expected: 40, got });
        }
        let node_type = match NodeType::parse(ty.as_str()) {
            Ok(t) => t,
            Err(e) => {
                return Err(StrMLHIDDeserializationError::Type(e));
            },
        };
        match decode_hash(hex.as_str().as_bytes()) {
            Some(hash) => Ok(MLHID { namespace_version: 1, node_type, hash }),
            None => Err(StrMLHIDDeserializationError::HashAlphabet(hex)),
        }
    }

    /// The byte at `level` of the identifier's radix key, counting from
    /// the least significant.
    pub fn get_level(&self, level: usize) -> (r: u8)
        requires
            level < BYTES_SIZE,
        ensures
            r == radix_key(*self)[BYTES_SIZE - level - 1],
    {
        let n = BYTES_SIZE - level - 1;
        if n == 0 {
            self.namespace_version
        } else if n == 1 {
            match self.node_type {
                NodeType::EmailBody => 0,
                NodeType::EmailMessage => 1,
                NodeType::MailingList => 2,
                NodeType::Origin => 3,
                NodeType::Patch => 4,
                NodeType::Person => 5,
            }
        } else {
            self.hash[n - 2]
        }
    }

    /// How the identifier sorts against `other`: by namespace version, then
    /// by kind in alphabetical order of the names, then by hash.
    pub fn compare(&self, other: &MLHID) -> (r: core::cmp::Ordering)
        ensures
            r == lex_order(radix_key(*self), radix_key(*other)),
    {
        let ghost a = radix_key(*self);
        let ghost b = radix_key(*other);
        let mut i: usize = 0;
        assert(a.subrange(0, 22) =~= a);
        assert(b.subrange(0, 22) =~= b);
        while i < BYTES_SIZE
            invariant
                0 <= i <= BYTES_SIZE,
                a == radix_key(*self),
                b == radix_key(*other),
                a.len() == 22 && b.len() == 22,
                lex_order(a, b) == lex_order(a.subrange(i as int, 22), b.subrange(i as int, 22)),
            decreases BYTES_SIZE - i,
        {
            let x = self.get_level(BYTES_SIZE - 1 - i);
            let y = other.get_level(BYTES_SIZE - 1 - i);
            let ghost sa = a.subrange(i as int, 22);
            let ghost sb = b.subrange(i as int, 22);
            assert(sa[0] == x && sb[0] == y);
            if x < y {
                return core::cmp::Ordering::Less;
            } else if x > y {
                return core::cmp::Ordering::Greater;
            }
            assert(sa.drop_first() =~= a.subrange(i + 1, 22));
            assert(sb.drop_first() =~= b.subrange(i + 1, 22));
            i = i + 1;
        }
        core::cmp::Ordering::Equal
    }

    /// The text of the identifier: `mlh:<version>:<kind>:<hash in hex>`.
    pub fn to_text(&self) -> (r: String)
        ensures
            r@ == mlhid_text(*self),
    {
        let mut hex: Vec<char> = Vec::new();
        let mut i: usize = 0;
        while i < 20
            invariant
                0 <= i <= 20,
                self.hash@.len() == 20,
                hex@ == hex_lower(self.hash@.subrange(0, i as int)),
            decreases 20 - i,
        {
            let b = self.hash[i];
            let ghost before = hex@;
            hex.push(hex_digit_char(b / 16));
            hex.push(hex_digit_char(b % 16));
            assert(self.hash@.subrange(0, i + 1).drop_last() =~= self.hash@.subrange(0, i as int));
            assert(hex@ =~= hex_lower(self.hash@.subrange(0, i + 1)));
            i = i + 1;
        }
        assert(self.hash@.subrange(0, 20) =~= self.hash@);
        let mut r = String::from_str("mlh:");
        r.append(decimal_string(self.namespace_version as usize).as_str());
        r.append(":");
        r.append(self.node_type.to_str());
        r.append(":");
        r.append(string_of(&hex).as_str());
        proof {
            reveal_strlit("mlh:");
            reveal_strlit(":");
        }
        assert(r@ =~= mlhid_text(*self));
        r
    }
}

} // verus!
