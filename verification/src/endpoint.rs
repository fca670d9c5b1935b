//! Identifiers and references: what the two ends of a relation may be.
//!
//! A block identifier is a UUID in its canonical text, `8-4-4-4-12`
//! hexadecimal digits. A reference into another document has the form
//! `elf://<namespace>/<path>#<anchor>`, the anchor being optional. References
//! are checked for their form only and never resolved.

use crate::error::TypesError;
use crate::text::{
    chars_of, find_char, find_char_in, has_prefix, is_hex_digit, lemma_find_char, string_of,
};
use vstd::prelude::*;
use vstd::slice::slice_subrange;
use vstd::string::StringExecFns;

verus! {

/// 32 hexadecimal digits in five groups, with hyphens between the groups.
pub open spec fn is_hyphenated_uuid(s: Seq<char>) -> bool {
    &&& s.len() == 36
    &&& forall|i: int|
        0 <= i < 36 ==> if i == 8 || i == 13 || i == 18 || i == 23 {
            #[trigger] s[i] == '-'
        } else {
            is_hex_digit(#[trigger] s[i])
        }
}

/// 32 hexadecimal digits.
pub open spec fn is_simple_uuid(s: Seq<char>) -> bool {
    &&& s.len() == 32
    &&& forall|i: int| 0 <= i < 32 ==> is_hex_digit(#[trigger] s[i])
}

/// A hyphenated UUID in braces.
pub open spec fn is_braced_uuid(s: Seq<char>) -> bool {
    &&& s.len() == 38
    &&& s[0] == '{'
    &&& s[37] == '}'
    &&& is_hyphenated_uuid(s.subrange(1, 37))
}

/// `urn:uuid:` in letters of either case.
pub open spec fn is_urn_prefix(p: Seq<char>) -> bool {
    &&& p.len() == 9
    &&& (p[0] == 'u' || p[0] == 'U')
    &&& (p[1] == 'r' || p[1] == 'R')
    &&& (p[2] == 'n' || p[2] == 'N')
    &&& p[3] == ':'
    &&& (p[4] == 'u' || p[4] == 'U')
    &&& (p[5] == 'u' || p[5] == 'U')
    &&& (p[6] == 'i' || p[6] == 'I')
    &&& (p[7] == 'd' || p[7] == 'D')
    &&& p[8] == ':'
}

/// A hyphenated UUID after `urn:uuid:`.
pub open spec fn is_urn_uuid(s: Seq<char>) -> bool {
    &&& s.len() == 45
    &&& is_urn_prefix(s.subrange(0, 9))
    &&& is_hyphenated_uuid(s.subrange(9, 45))
}

/// The texts that the UUID reader accepts: the simple, the hyphenated, the
/// braced and the URN form.
pub open spec fn uuid_accepts(s: Seq<char>) -> bool {
    is_simple_uuid(s) || is_hyphenated_uuid(s) || is_braced_uuid(s) || is_urn_uuid(s)
}

/// `uuid::Uuid::parse_str`, asked only whether it succeeds. It does for a text
/// of 32 hexadecimal digits, for one of 36 characters with hyphens after the
/// 8th, 12th, 16th and 20th digit, for such a text in braces, and for such a
/// text after `urn:uuid:` in either case; for no other.
#[verifier::external_body]
pub(crate) fn uuid_parses(text: &str) -> (ok: bool)
    ensures
        ok == uuid_accepts(text@),
{
    uuid::Uuid::parse_str(text).is_ok()
}

/// The scheme that starts a reference into another document: `elf://`.
pub open spec fn elf_scheme() -> Seq<char> {
    seq!['e', 'l', 'f', ':', '/', '/']
}

/// The text is a reference into another document, well formed or not.
pub open spec fn is_remote(s: Seq<char>) -> bool {
    has_prefix(s, elf_scheme())
}

/// The parts of a reference into another document.
pub struct ElfRefModel {
    pub namespace: Seq<char>,
    pub path: Seq<char>,
    pub anchor: Option<Seq<char>>,
}

/// The parts of the reference `s`: after the scheme, the namespace up to the
/// first `/`, the path up to the first `#`, and the anchor after it. `None`
/// where `s` lacks the scheme or the `/`, or where a part is empty.
pub open spec fn elf_ref_parts(s: Seq<char>) -> Option<ElfRefModel> {
    let rest = s.subrange(6, s.len() as int);
    let hash = find_char(rest, 0, '#');
    let locator = rest.subrange(0, hash);
    let slash = find_char(locator, 0, '/');
    let namespace = locator.subrange(0, slash);
    let path = locator.subrange(slash + 1, locator.len() as int);
    let anchor = rest.subrange(hash + 1, rest.len() as int);
    if !is_remote(s) || slash >= locator.len() || namespace.len() == 0 || path.len() == 0 {
        None
    } else if hash >= rest.len() {
        Some(ElfRefModel { namespace, path, anchor: None })
    } else if anchor.len() == 0 {
        None
    } else {
        Some(ElfRefModel { namespace, path, anchor: Some(anchor) })
    }
}

/// The parts are those of a reference: a namespace without `/` and `#`, a
/// path without `#`, neither empty, and an anchor that, where there is one, is
/// not empty.
pub open spec fn well_formed_parts(parts: ElfRefModel) -> bool {
    &&& parts.namespace.len() > 0
    &&& !parts.namespace.contains('/')
    &&& !parts.namespace.contains('#')
    &&& parts.path.len() > 0
    &&& !parts.path.contains('#')
    &&& parts.anchor matches Some(anchor) ==> anchor.len() > 0
}

/// The text of the reference with the given parts.
pub open spec fn elf_ref_text(parts: ElfRefModel) -> Seq<char> {
    let locator = elf_scheme() + parts.namespace + seq!['/'] + parts.path;
    match parts.anchor {
        Some(anchor) => locator + seq!['#'] + anchor,
        None => locator,
    }
}

/// The text is a block identifier: a UUID in canonical form.
pub open spec fn is_block_id(s: Seq<char>) -> bool {
    is_hyphenated_uuid(s)
}

/// The identifier of a block: a UUID in canonical form.
#[derive(Debug)]
pub struct BlockId {
    text: String,
}

impl View for BlockId {
    type V = Seq<char>;

    closed spec fn view(&self) -> Seq<char> {
        self.text@
    }
}

impl Clone for BlockId {
    fn clone(&self) -> (copy: Self)
        ensures
            copy@ == self@,
    {
        proof {
            use_type_invariant(self);
        }
        BlockId { text: self.text.clone() }
    }
}

impl BlockId {
    #[verifier::type_invariant]
    spec fn canonical(self) -> bool {
        is_block_id(self.text@)
    }

    /// The text of the identifier.
    pub fn as_str(&self) -> (text: &str)
        ensures
            text@ == self@,
            is_block_id(text@),
    {
        proof {
            use_type_invariant(self);
        }
        self.text.as_str()
    }
}

/// A reference to a block of another document.
#[derive(Debug)]
pub struct ElfRef {
    namespace: String,
    path: String,
    anchor: Option<String>,
}

impl View for ElfRef {
    type V = ElfRefModel;

    closed spec fn view(&self) -> ElfRefModel {
        ElfRefModel {
            namespace: self.namespace@,
            path: self.path@,
            anchor: match self.anchor {
                Some(anchor) => Some(anchor@),
                None => None,
            },
        }
    }
}

impl Clone for ElfRef {
    fn clone(&self) -> (copy: Self)
        ensures
            copy@ == self@,
    {
        proof {
            use_type_invariant(self);
        }
        ElfRef {
            namespace: self.namespace.clone(),
            path: self.path.clone(),
            anchor: match &self.anchor {
                Some(anchor) => Some(anchor.clone()),
                None => None,
            },
        }
    }
}

impl ElfRef {
    #[verifier::type_invariant]
    spec fn well_formed(self) -> bool {
        well_formed_parts(self@)
    }

    /// The scope that owns the document referred to.
    pub fn namespace(&self) -> (text: &str)
        ensures
            text@ == self@.namespace,
            well_formed_parts(self@),
    {
        proof {
            use_type_invariant(self);
        }
        self.namespace.as_str()
    }

    /// The place of the document within its scope.
    pub fn path(&self) -> (text: &str)
        ensures
            text@ == self@.path,
            well_formed_parts(self@),
    {
        proof {
            use_type_invariant(self);
        }
        self.path.as_str()
    }

    /// The name or identifier of the block within the document, if given.
    pub fn anchor(&self) -> (text: Option<&str>)
        ensures
            match text {
                Some(anchor) => self@.anchor == Some(anchor@),
                None => self@.anchor is None,
            },
            well_formed_parts(self@),
    {
        proof {
            use_type_invariant(self);
        }
        match &self.anchor {
            Some(anchor) => Some(anchor.as_str()),
            None => None,
        }
    }

    /// The reference as text.
    pub fn to_text(&self) -> (text: String)
        ensures
            text@ == elf_ref_text(self@),
    {
        let locator = String::from_str("elf://").concat(self.namespace.as_str()).concat(
            "/",
        ).concat(self.path.as_str());
        proof {
            reveal_strlit("elf://");
            reveal_strlit("/");
            reveal_strlit("#");
            assert("elf://"@ =~= elf_scheme());
            assert("/"@ =~= seq!['/']);
            assert("#"@ =~= seq!['#']);
        }
        match &self.anchor {
            Some(anchor) => locator.concat("#").concat(anchor.as_str()),
            None => locator,
        }
    }
}

/// One end of a relation.
#[derive(Debug, Clone)]
pub enum Endpoint {
    /// A block of the same document.
    Local(BlockId),
    /// A block of another document.
    Remote(ElfRef),
}

/// An endpoint as contracts speak of it.
pub enum EndpointModel {
    Local(Seq<char>),
    Remote(ElfRefModel),
}

impl View for Endpoint {
    type V = EndpointModel;

    open spec fn view(&self) -> EndpointModel {
        match self {
            Endpoint::Local(id) => EndpointModel::Local(id@),
            Endpoint::Remote(reference) => EndpointModel::Remote(reference@),
        }
    }
}

/// The kind of the endpoint `s`: a block identifier is local, a text with
/// the scheme `elf://` is a reference if it is well formed; anything else is
/// no endpoint.
pub open spec fn endpoint_of(s: Seq<char>) -> Option<EndpointModel> {
    if is_block_id(s) {
        Some(EndpointModel::Local(s))
    } else {
        match elf_ref_parts(s) {
            Some(parts) => Some(EndpointModel::Remote(parts)),
            None => None,
        }
    }
}

/// The message with which a text is refused as a block identifier.
pub open spec fn block_id_refusal(s: Seq<char>) -> Seq<char> {
    if s.len() == 0 {
        "Block identifier cannot be empty"@
    } else {
        "Invalid block identifier: "@ + s
    }
}

/// The message with which a text is refused as a reference.
pub open spec fn elf_ref_refusal(s: Seq<char>) -> Seq<char> {
    "Invalid cross-document reference: "@ + s
}

/// The message with which a text is refused as an endpoint.
pub open spec fn endpoint_refusal(s: Seq<char>) -> Seq<char> {
    if is_remote(s) {
        elf_ref_refusal(s)
    } else {
        "Unrecognized endpoint: "@ + s
    }
}

/// Whether the characters are a UUID in canonical form.
pub fn is_block_id_text(text: &str) -> (ok: bool)
    ensures
        ok == is_block_id(text@),
{
    let accepted = uuid_parses(text);
    let length = text.unicode_len();
    accepted && length == 36
}

/// Checks that `text` is a block identifier.
pub fn validate_block_id(text: &str) -> (r: Result<BlockId, TypesError>)
    ensures
        match r {
            Ok(id) => is_block_id(text@) && id@ == text@,
            Err(e) => {
                &&& !is_block_id(text@)
                &&& e matches TypesError::InvalidFormat { details } && details@
                    == block_id_refusal(text@)
            },
        },
{
    if is_block_id_text(text) {
        Ok(BlockId { text: String::from_str(text) })
    } else if text.unicode_len() == 0 {
        Err(TypesError::InvalidFormat { details: String::from_str("Block identifier cannot be empty") })
    } else {
        Err(
            TypesError::InvalidFormat {
                details: String::from_str("Invalid block identifier: ").concat(text),
            },
        )
    }
}

/// Whether the characters begin with `elf://`.
pub fn is_remote_text(chars: &[char]) -> (r: bool)
    ensures
        r == is_remote(chars@),
{
    if chars.len() >= 6 && chars[0] == 'e' && chars[1] == 'l' && chars[2] == 'f' && chars[3] == ':'
        && chars[4] == '/' && chars[5] == '/' {
        assert(chars@.subrange(0, 6) =~= elf_scheme());
        true
    } else {
        if chars.len() >= 6 {
            assert(chars@.subrange(0, 6)[0] == chars@[0]);
            assert(chars@.subrange(0, 6)[1] == chars@[1]);
            assert(chars@.subrange(0, 6)[2] == chars@[2]);
            assert(chars@.subrange(0, 6)[3] == chars@[3]);
            assert(chars@.subrange(0, 6)[4] == chars@[4]);
            assert(chars@.subrange(0, 6)[5] == chars@[5]);
        }
        false
    }
}

/// Takes the characters apart as a reference.
pub fn parse_elf_ref(chars: &[char]) -> (r: Option<ElfRef>)
    ensures
        match r {
            Some(reference) => elf_ref_parts(chars@) == Some(reference@),
            None => elf_ref_parts(chars@) is None,
        },
{
    if !is_remote_text(chars) {
        return None;
    }
    let rest = slice_subrange(chars, 6, chars.len());
    let hash = find_char_in(rest, 0, '#');
    let locator = slice_subrange(rest, 0, hash);
    let slash = find_char_in(locator, 0, '/');
    if slash >= locator.len() || slash == 0 || slash + 1 >= locator.len() {
        return None;
    }
    proof {
        lemma_find_char(rest@, 0, '#');
        lemma_find_char(locator@, 0, '/');
    }
    let namespace = slice_subrange(locator, 0, slash);
    let path = slice_subrange(locator, slash + 1, locator.len());
    if hash < rest.len() && hash + 1 >= rest.len() {
        return None;
    }
    let anchor = if hash < rest.len() {
        Some(string_of(slice_subrange(rest, hash + 1, rest.len())))
    } else {
        None
    };
    Some(ElfRef { namespace: string_of(namespace), path: string_of(path), anchor })
}

/// Checks that `text` is a reference into another document and takes it
/// apart.
pub fn validate_elf_ref(text: &str) -> (r: Result<ElfRef, TypesError>)
    ensures
        match r {
            Ok(reference) => elf_ref_parts(text@) == Some(reference@),
            Err(e) => {
                &&& elf_ref_parts(text@) is None
                &&& e matches TypesError::InvalidFormat { details } && details@
                    == elf_ref_refusal(text@)
            },
        },
{
    let chars = chars_of(text);
    match parse_elf_ref(chars.as_slice()) {
        Some(reference) => Ok(reference),
        None => Err(
            TypesError::InvalidFormat {
                details: String::from_str("Invalid cross-document reference: ").concat(text),
            },
        ),
    }
}

/// Tells what kind of endpoint `text` is.
pub fn classify_endpoint(text: &str) -> (r: Result<Endpoint, TypesError>)
    ensures
        match r {
            Ok(endpoint) => endpoint_of(text@) == Some(endpoint@),
            Err(e) => {
                &&& endpoint_of(text@) is None
                &&& e matches TypesError::InvalidFormat { details } && details@
                    == endpoint_refusal(text@)
            },
        },
{
    match validate_block_id(text) {
        Ok(id) => Ok(Endpoint::Local(id)),
        Err(_) => {
            let chars = chars_of(text);
            match parse_elf_ref(chars.as_slice()) {
                Some(reference) => Ok(Endpoint::Remote(reference)),
                None => if is_remote_text(chars.as_slice()) {
                    Err(
                        TypesError::InvalidFormat {
                            details: String::from_str("Invalid cross-document reference: ").concat(
                                text,
                            ),
                        },
                    )
                } else {
                    Err(
                        TypesError::InvalidFormat {
                            details: String::from_str("Unrecognized endpoint: ").concat(text),
                        },
                    )
                },
            }
        },
    }
}

/// The parts of a reference are well formed and spell the reference: taking
/// a reference apart loses nothing.
pub proof fn lemma_parts_spell_reference(s: Seq<char>)
    requires
        elf_ref_parts(s) is Some,
    ensures
        well_formed_parts(elf_ref_parts(s)->0),
        elf_ref_text(elf_ref_parts(s)->0) == s,
{
    let rest = s.subrange(6, s.len() as int);
    let hash = find_char(rest, 0, '#');
    lemma_find_char(rest, 0, '#');
    let locator = rest.subrange(0, hash);
    let slash = find_char(locator, 0, '/');
    lemma_find_char(locator, 0, '/');
    let parts = elf_ref_parts(s)->0;
    assert(s.subrange(0, 6) == elf_scheme());
    assert(!parts.namespace.contains('/')) by {
        if parts.namespace.contains('/') {
            let k = choose|k: int| 0 <= k < parts.namespace.len() && parts.namespace[k] == '/';
            assert(locator[k] == '/');
        }
    }
    assert(!parts.namespace.contains('#')) by {
        if parts.namespace.contains('#') {
            let k = choose|k: int| 0 <= k < parts.namespace.len() && parts.namespace[k] == '#';
            assert(rest[k] == '#');
        }
    }
    assert(!parts.path.contains('#')) by {
        if parts.path.contains('#') {
            let k = choose|k: int| 0 <= k < parts.path.len() && parts.path[k] == '#';
            assert(rest[slash + 1 + k] == '#');
        }
    }
    assert(elf_ref_text(parts) =~= s);
}

/// A block identifier is no reference, and a reference no block identifier.
pub proof fn lemma_kinds_exclude(s: Seq<char>)
    ensures
        !(is_block_id(s) && is_remote(s)),
{
    if is_block_id(s) && is_remote(s) {
        assert(s.subrange(0, 6)[1] == 'l');
        assert(is_hex_digit(s[1]));
    }
}

} // verus!
