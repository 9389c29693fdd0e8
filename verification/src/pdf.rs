//! Uploaded PDF statements: recognising a PDF among attachments (raw, behind a byte
//! order mark or surrounding whitespace, or Base64-encoded) and decrypting it.
use base64::Engine;
use vstd::prelude::*;
use vstd::slice::slice_to_vec;
use vstd::string::*;

verus! {

/// The magic bytes that open every PDF file: `%PDF`.
pub open spec fn pdf_magic() -> Seq<u8> {
    seq![0x25u8, 0x50u8, 0x44u8, 0x46u8]
}

/// The Base64 text of `%PDF`'s first bytes: `JVBER`.
pub open spec fn base64_pdf_magic() -> Seq<u8> {
    seq![0x4Au8, 0x56u8, 0x42u8, 0x45u8, 0x52u8]
}

/// The UTF-8 byte order mark.
pub open spec fn utf8_bom() -> Seq<u8> {
    seq![0xEFu8, 0xBBu8, 0xBFu8]
}

/// Whether `s` begins with `p`.
pub open spec fn bytes_start_with(s: Seq<u8>, p: Seq<u8>) -> bool {
    p.len() <= s.len() && s.subrange(0, p.len() as int) == p
}

/// ASCII whitespace as `u8::is_ascii_whitespace` defines it: space, tab, line feed,
/// form feed and carriage return.
pub open spec fn is_ascii_whitespace(b: u8) -> bool {
    b == 0x20u8 || b == 0x09u8 || b == 0x0Au8 || b == 0x0Cu8 || b == 0x0Du8
}

/// `s` without its leading ASCII whitespace.
pub open spec fn trim_ascii_start(s: Seq<u8>) -> Seq<u8>
    decreases s.len(),
{
    if s.len() > 0 && is_ascii_whitespace(s[0]) {
        trim_ascii_start(s.drop_first())
    } else {
        s
    }
}

/// `s` without its trailing ASCII whitespace.
pub open spec fn trim_ascii_end(s: Seq<u8>) -> Seq<u8>
    decreases s.len(),
{
    if s.len() > 0 && is_ascii_whitespace(s.last()) {
        trim_ascii_end(s.drop_last())
    } else {
        s
    }
}

/// `s` without leading and trailing ASCII whitespace, as `<[u8]>::trim_ascii` gives it.
pub open spec fn trim_ascii(s: Seq<u8>) -> Seq<u8> {
    trim_ascii_end(trim_ascii_start(s))
}

/// `s` without a leading byte order mark.
pub open spec fn strip_bom(s: Seq<u8>) -> Seq<u8> {
    if bytes_start_with(s, utf8_bom()) {
        s.subrange(3, s.len() as int)
    } else {
        s
    }
}

/// `s` with every ASCII whitespace byte taken out.
pub open spec fn without_ascii_whitespace(s: Seq<u8>) -> Seq<u8> {
    s.filter(|b: u8| !is_ascii_whitespace(b))
}

/// What the Base64 engine with the standard alphabet and padding decodes `input` to;
/// none when it rejects the input.
pub uninterp spec fn base64_standard_decoded(input: Seq<u8>) -> Option<Seq<u8>>;

/// The PDF in an uploaded attachment: the bytes themselves when they begin with `%PDF`;
/// else, after a byte order mark and surrounding ASCII whitespace are taken away, those
/// bytes when they begin with `%PDF`; else, when they begin with `JVBER`, their Base64
/// decoding (whitespace inside ignored) when that decodes and begins with `%PDF`.
pub open spec fn spec_normalize_pdf_payload(bytes: Seq<u8>) -> Option<Seq<u8>> {
    if bytes_start_with(bytes, pdf_magic()) {
        Some(bytes)
    } else {
        let t = trim_ascii(strip_bom(bytes));
        if bytes_start_with(t, pdf_magic()) {
            Some(t)
        } else if bytes_start_with(t, base64_pdf_magic()) {
            match base64_standard_decoded(without_ascii_whitespace(t)) {
                Some(d) => if bytes_start_with(d, pdf_magic()) {
                    Some(d)
                } else {
                    None
                },
                None => None,
            }
        } else {
            None
        }
    }
}

/// The character of the standard Base64 alphabet (RFC 4648) for a 6-bit value:
/// `A`-`Z`, `a`-`z`, `0`-`9`, `+`, `/`.
pub open spec fn base64_symbol(v: int) -> char {
    if v < 26 {
        (65 + v) as char
    } else if v < 52 {
        (97 + v - 26) as char
    } else if v < 62 {
        (48 + v - 52) as char
    } else if v == 62 {
        '+'
    } else {
        '/'
    }
}

/// The standard Base64 encoding with padding (RFC 4648): each group of three bytes
/// becomes four symbols of six bits each; a last group of one or two bytes is padded
/// with zero bits and completed with `=`.
pub open spec fn base64_standard_encoding(input: Seq<u8>) -> Seq<char>
    decreases input.len(),
{
    if input.len() == 0 {
        Seq::empty()
    } else if input.len() == 1 {
        let a = input[0] as int;
        seq![base64_symbol(a / 4), base64_symbol((a % 4) * 16), '=', '=']
    } else if input.len() == 2 {
        let a = input[0] as int;
        let b = input[1] as int;
        seq![base64_symbol(a / 4), base64_symbol((a % 4) * 16 + b / 16), base64_symbol(
            (b % 16) * 4,
        ), '=']
    } else {
        let a = input[0] as int;
        let b = input[1] as int;
        let c = input[2] as int;
        seq![
            base64_symbol(a / 4),
            base64_symbol((a % 4) * 16 + b / 16),
            base64_symbol((b % 16) * 4 + c / 64),
            base64_symbol(c % 64),
        ] + base64_standard_encoding(input.subrange(3, input.len() as int))
    }
}

/// Calls `base64::engine::general_purpose::STANDARD.encode`, which encodes with the
/// standard alphabet and padding, as `base64_standard_encoding` states.
#[verifier::external_body]
fn base64_encode(input: &[u8]) -> (r: String)
    ensures
        r@ == base64_standard_encoding(input@),
{
    base64::engine::general_purpose::STANDARD.encode(input)
}

/// The PDF as the Base64 text that is sent inline to the extraction model.
pub fn encode_pdf_base64(pdf_bytes: &[u8]) -> (r: String)
    ensures
        r@ == base64_standard_encoding(pdf_bytes@),
{
    base64_encode(pdf_bytes)
}

#[verifier::external_type_specification]
#[verifier::external_body]
pub struct ExDecodeError(base64::DecodeError);

/// Calls `base64::engine::general_purpose::STANDARD.decode`: the contract names what it
/// decodes `input` to; the Base64 alphabet and padding rules are not restated.
#[verifier::external_body]
fn base64_decode(input: &[u8]) -> (r: Result<Vec<u8>, base64::DecodeError>)
    ensures
        r is Ok <==> base64_standard_decoded(input@) is Some,
        r matches Ok(v) ==> base64_standard_decoded(input@) == Some(v@),
{
    base64::engine::general_purpose::STANDARD.decode(input)
}

fn starts_with_pdf_magic(s: &[u8]) -> (r: bool)
    ensures
        r == bytes_start_with(s@, pdf_magic()),
{
    let r = s.len() >= 4 && s[0] == 0x25u8 && s[1] == 0x50u8 && s[2] == 0x44u8 && s[3] == 0x46u8;
    proof {
        if s@.len() >= 4 {
            assert(r == (s@.subrange(0, 4) =~= pdf_magic()));
        }
    }
    r
}

fn starts_with_base64_pdf_magic(s: &[u8]) -> (r: bool)
    ensures
        r == bytes_start_with(s@, base64_pdf_magic()),
{
    let r = s.len() >= 5 && s[0] == 0x4Au8 && s[1] == 0x56u8 && s[2] == 0x42u8 && s[3] == 0x45u8
        && s[4] == 0x52u8;
    proof {
        if s@.len() >= 5 {
            assert(r == (s@.subrange(0, 5) =~= base64_pdf_magic()));
        }
    }
    r
}

fn is_ascii_ws(b: u8) -> (r: bool)
    ensures
        r == is_ascii_whitespace(b),
{
    b == 0x20u8 || b == 0x09u8 || b == 0x0Au8 || b == 0x0Cu8 || b == 0x0Du8
}

proof fn lemma_trim_start_skip(s: Seq<u8>, i: int)
    requires
        0 <= i <= s.len(),
        forall|j: int| 0 <= j < i ==> is_ascii_whitespace(#[trigger] s[j]),
    ensures
        trim_ascii_start(s) == trim_ascii_start(s.subrange(i, s.len() as int)),
    decreases i,
{
    if i > 0 {
        assert(s.drop_first().subrange(i - 1, s.drop_first().len() as int) =~= s.subrange(
            i,
            s.len() as int,
        ));
        lemma_trim_start_skip(s.drop_first(), i - 1);
    } else {
        assert(s.subrange(0, s.len() as int) =~= s);
    }
}

proof fn lemma_trim_end_take(s: Seq<u8>, k: int)
    requires
        0 <= k <= s.len(),
        forall|j: int| k <= j < s.len() ==> is_ascii_whitespace(#[trigger] s[j]),
    ensures
        trim_ascii_end(s) == trim_ascii_end(s.subrange(0, k)),
    decreases s.len() - k,
{
    if k < s.len() {
        assert(s.drop_last().subrange(0, k) =~= s.subrange(0, k));
        lemma_trim_end_take(s.drop_last(), k);
    } else {
        assert(s.subrange(0, k) =~= s);
    }
}

/// The bytes of `s` without leading and trailing ASCII whitespace.
pub fn trim_ascii_bytes(s: &[u8]) -> (r: &[u8])
    ensures
        r@ == trim_ascii(s@),
{
    let n = s.len();
    let mut i: usize = 0;
    while i < n && is_ascii_ws(s[i])
        invariant
            n == s@.len(),
            i <= n,
            forall|j: int| 0 <= j < i ==> is_ascii_whitespace(#[trigger] s@[j]),
        decreases n - i,
    {
        i += 1;
    }
    proof {
        lemma_trim_start_skip(s@, i as int);
        let rest = s@.subrange(i as int, n as int);
        if rest.len() > 0 {
            assert(rest[0] == s@[i as int]);
        }
    }
    let mut k: usize = n;
    while k > i && is_ascii_ws(s[k - 1])
        invariant
            n == s@.len(),
            i <= k <= n,
            forall|j: int| k <= j < n ==> is_ascii_whitespace(#[trigger] s@[j]),
        decreases k,
    {
        k -= 1;
    }
    proof {
        let rest = s@.subrange(i as int, n as int);
        assert forall|j: int| k - i <= j < rest.len() implies is_ascii_whitespace(
            #[trigger] rest[j],
        ) by {
            assert(rest[j] == s@[i + j]);
        }
        lemma_trim_end_take(rest, k - i);
        assert(rest.subrange(0, k - i) =~= s@.subrange(i as int, k as int));
        let mid = s@.subrange(i as int, k as int);
        if mid.len() > 0 {
            assert(mid.last() == s@[k - 1]);
        }
    }
    &s[i..k]
}

/// The bytes of `s` with every ASCII whitespace byte taken out.
pub fn remove_ascii_whitespace(s: &[u8]) -> (r: Vec<u8>)
    ensures
        r@ == without_ascii_whitespace(s@),
{
    let n = s.len();
    let mut out: Vec<u8> = Vec::new();
    let ghost pred = |b: u8| !is_ascii_whitespace(b);
    assert(s@.subrange(0, 0).filter(pred) =~= Seq::<u8>::empty()) by {
        reveal(Seq::filter);
    }
    for i in 0..n
        invariant
            n == s@.len(),
            pred == (|b: u8| !is_ascii_whitespace(b)),
            out@ == s@.subrange(0, i as int).filter(pred),
    {
        proof {
            reveal(Seq::filter);
            assert(s@.subrange(0, i + 1).drop_last() =~= s@.subrange(0, i as int));
            assert(s@.subrange(0, i + 1).last() == s@[i as int]);
        }
        if !is_ascii_ws(s[i]) {
            out.push(s[i]);
        }
    }
    assert(s@.subrange(0, n as int) =~= s@);
    out
}

/// The PDF carried by an uploaded attachment, if it carries one (see
/// `spec_normalize_pdf_payload`).
pub fn normalize_pdf_payload(bytes: &[u8]) -> (r: Option<Vec<u8>>)
    ensures
        r.deep_view() == spec_normalize_pdf_payload(bytes@),
{
    if starts_with_pdf_magic(bytes) {
        return Some(slice_to_vec(bytes));
    }
    let has_bom = bytes.len() >= 3 && bytes[0] == 0xEFu8 && bytes[1] == 0xBBu8 && bytes[2]
        == 0xBFu8;
    proof {
        if bytes@.len() >= 3 {
            assert(has_bom == (bytes@.subrange(0, 3) =~= utf8_bom()));
        }
    }
    let unmarked: &[u8] = if has_bom {
        &bytes[3..bytes.len()]
    } else {
        bytes
    };
    assert(unmarked@ == strip_bom(bytes@));
    let trimmed = trim_ascii_bytes(unmarked);
    if starts_with_pdf_magic(trimmed) {
        return Some(slice_to_vec(trimmed));
    }
    if starts_with_base64_pdf_magic(trimmed) {
        let compact = remove_ascii_whitespace(trimmed);
        if let Ok(decoded) = base64_decode(compact.as_slice()) {
            if starts_with_pdf_magic(decoded.as_slice()) {
                return Some(decoded);
            }
        }
    }
    None
}

/// Whatever the attachment, an accepted payload begins with `%PDF`.
pub proof fn lemma_normalized_payload_is_pdf(bytes: Seq<u8>)
    ensures
        spec_normalize_pdf_payload(bytes) matches Some(p) ==> bytes_start_with(p, pdf_magic()),
{
}

/// Normalizing an accepted payload again gives it back unchanged.
pub proof fn lemma_normalize_idempotent(bytes: Seq<u8>)
    ensures
        spec_normalize_pdf_payload(bytes) matches Some(p) ==> spec_normalize_pdf_payload(p)
            == Some(p),
{
}

/// Whether `b` is one of the five ASCII whitespace bytes: space, tab, line feed, form
/// feed, carriage return.
pub open spec fn is_space_tab_lf_ff_cr(b: u8) -> bool {
    b == 32u8 || b == 9u8 || b == 10u8 || b == 12u8 || b == 13u8
}

proof fn lemma_without_whitespace_single(x: u8)
    ensures
        is_space_tab_lf_ff_cr(x) ==> without_ascii_whitespace(seq![x]) == Seq::<u8>::empty(),
        !is_space_tab_lf_ff_cr(x) ==> without_ascii_whitespace(seq![x]) == seq![x],
{
    reveal_with_fuel(Seq::filter, 2);
    assert(seq![x].drop_last() =~= Seq::<u8>::empty());
    assert(seq![x].last() == x);
    assert(Seq::<u8>::empty().push(x) =~= seq![x]);
}

/// Removing whitespace works byte by byte: it distributes over concatenation, drops
/// each of space, tab, line feed, form feed and carriage return, and keeps every other
/// byte; nothing it keeps is whitespace.
pub proof fn lemma_whitespace_removal(a: Seq<u8>, b: Seq<u8>, x: u8)
    ensures
        without_ascii_whitespace(a + b) == without_ascii_whitespace(a) + without_ascii_whitespace(
            b,
        ),
        is_space_tab_lf_ff_cr(x) ==> without_ascii_whitespace(seq![x]) == Seq::<u8>::empty(),
        !is_space_tab_lf_ff_cr(x) ==> without_ascii_whitespace(seq![x]) == seq![x],
        forall|i: int|
            0 <= i < without_ascii_whitespace(a).len() ==> !is_space_tab_lf_ff_cr(
                #[trigger] without_ascii_whitespace(a)[i],
            ),
{
    let pred = |c: u8| !is_ascii_whitespace(c);
    Seq::filter_distributes_over_add(a, b, pred);
    lemma_without_whitespace_single(x);
    assert forall|i: int| 0 <= i < without_ascii_whitespace(a).len() implies !is_space_tab_lf_ff_cr(
        #[trigger] without_ascii_whitespace(a)[i],
    ) by {
        a.lemma_filter_pred(pred, i);
    }
}

/// What a Base64 payload is recognised as, given its bytes with whitespace removed.
pub open spec fn decoded_pdf(compact: Seq<u8>) -> Option<Seq<u8>> {
    match base64_standard_decoded(compact) {
        Some(d) => if bytes_start_with(d, pdf_magic()) {
            Some(d)
        } else {
            None
        },
        None => None,
    }
}

proof fn lemma_base64_payload(s: Seq<u8>)
    requires
        bytes_start_with(s, base64_pdf_magic()),
        !is_space_tab_lf_ff_cr(s.last()),
    ensures
        spec_normalize_pdf_payload(s) == decoded_pdf(without_ascii_whitespace(s)),
{
    assert(s.subrange(0, 5)[0] == s[0]);
    assert(!bytes_start_with(s, pdf_magic())) by {
        assert(s.subrange(0, 4)[0] == s[0]);
    }
    assert(!bytes_start_with(s, utf8_bom())) by {
        assert(s.subrange(0, 3)[0] == s[0]);
    }
    assert(trim_ascii_start(s) == s);
    assert(trim_ascii_end(s) == s);
}

/// Whitespace inside Base64 text does not matter: inserting one of space, tab, line
/// feed, form feed or carriage return between the characters of a Base64 payload (one
/// that begins with `JVBER` and ends with a non-whitespace byte) leaves what is
/// recognised unchanged.
pub proof fn lemma_inner_whitespace_is_ignored(a: Seq<u8>, b: Seq<u8>, x: u8)
    requires
        bytes_start_with(a, base64_pdf_magic()),
        b.len() > 0,
        !is_space_tab_lf_ff_cr(b.last()),
        is_space_tab_lf_ff_cr(x),
    ensures
        spec_normalize_pdf_payload(a + seq![x] + b) == spec_normalize_pdf_payload(a + b),
{
    let s1 = a + seq![x] + b;
    let s2 = a + b;
    assert(s1.last() == b.last() && s2.last() == b.last());
    assert(s1.subrange(0, 5) =~= a.subrange(0, 5));
    assert(s2.subrange(0, 5) =~= a.subrange(0, 5));
    lemma_base64_payload(s1);
    lemma_base64_payload(s2);
    lemma_whitespace_removal(a + seq![x], b, x);
    lemma_whitespace_removal(a, seq![x], x);
    lemma_whitespace_removal(a, b, x);
    assert(without_ascii_whitespace(a) + Seq::<u8>::empty() =~= without_ascii_whitespace(a));
}

#[verifier::external_type_specification]
#[verifier::external_body]
pub struct ExPdfDocument(lopdf::Document);

#[verifier::external_type_specification]
#[verifier::external_body]
pub struct ExPdfError(lopdf::Error);

/// Whether lopdf's reader accepts `bytes` as a PDF document.
pub uninterp spec fn pdf_loads(bytes: Seq<u8>) -> bool;

/// Whether lopdf's reader accepts `bytes` as a PDF document when given `password`.
pub uninterp spec fn pdf_opens_with(bytes: Seq<u8>, password: Seq<char>) -> bool;

/// Whether the document that lopdf's reader reads from `bytes`, without a password, is
/// encrypted, as `Document::is_encrypted` tells.
pub uninterp spec fn pdf_encrypted(bytes: Seq<u8>) -> bool;

/// A document read by lopdf without a password, together with the bytes it was read
/// from.
pub struct LoadedPdf {
    doc: lopdf::Document,
    source: Ghost<Seq<u8>>,
}

impl LoadedPdf {
    /// The bytes the document was read from.
    pub closed spec fn source(&self) -> Seq<u8> {
        self.source@
    }
}

/// Calls `lopdf::Document::load_mem`. The contract says only that it succeeds exactly
/// when the reader accepts the bytes (named `pdf_loads`), and records which bytes the
/// document was read from; the parsed document itself is opaque.
#[verifier::external_body]
fn pdf_load(bytes: &[u8]) -> (r: Result<LoadedPdf, lopdf::Error>)
    ensures
        r is Ok <==> pdf_loads(bytes@),
        r matches Ok(pdf) ==> pdf.source() == bytes@,
{
    match lopdf::Document::load_mem(bytes) {
        Ok(doc) => Ok(LoadedPdf { doc, source: Ghost(bytes@) }),
        Err(e) => Err(e),
    }
}

/// Calls `lopdf::Document::is_encrypted` on a document read without a password. The
/// answer depends on the bytes it was read from alone, and is named `pdf_encrypted`.
#[verifier::external_body]
fn pdf_is_encrypted(pdf: &LoadedPdf) -> (r: bool)
    ensures
        r == pdf_encrypted(pdf.source()),
{
    pdf.doc.is_encrypted()
}

/// A document read by lopdf with a password, together with the bytes and the password
/// it was read with.
pub struct OpenedPdf {
    doc: lopdf::Document,
    source: Ghost<Seq<u8>>,
    password: Ghost<Seq<char>>,
}

impl OpenedPdf {
    /// The bytes the document was read from.
    pub closed spec fn source(&self) -> Seq<u8> {
        self.source@
    }

    /// The password the document was read with.
    pub closed spec fn password(&self) -> Seq<char> {
        self.password@
    }
}

/// Calls `lopdf::Document::load_mem_with_password`. The contract says that it succeeds
/// exactly when the reader accepts the bytes with that password (named
/// `pdf_opens_with`), and records the bytes and the password the document was read with.
#[verifier::external_body]
#[allow(deprecated)]
fn pdf_load_with_password(bytes: &[u8], password: &str) -> (r: Result<OpenedPdf, lopdf::Error>)
    ensures
        r is Ok <==> pdf_opens_with(bytes@, password@),
        r matches Ok(pdf) ==> pdf.source() == bytes@ && pdf.password() == password@,
{
    match lopdf::Document::load_mem_with_password(bytes, password) {
        Ok(doc) => Ok(OpenedPdf { doc, source: Ghost(bytes@), password: Ghost(password@) }),
        Err(e) => Err(e),
    }
}

/// What `Document::save_modern` writes for the document that lopdf's reader reads from
/// `bytes` with `password`; none when writing fails.
pub uninterp spec fn pdf_decrypted(bytes: Seq<u8>, password: Seq<char>) -> Option<Seq<u8>>;

#[verifier::external_type_specification]
#[verifier::external_body]
pub struct ExIoError(std::io::Error);

/// Calls `lopdf::Document::save_modern` into a fresh buffer and hands the buffer back.
/// The document was read with a password; what is written depends on the bytes and the
/// password it was read with alone, and is named `pdf_decrypted`.
#[verifier::external_body]
fn pdf_save_modern(pdf: &mut OpenedPdf) -> (r: Result<Vec<u8>, std::io::Error>)
    ensures
        r is Ok <==> pdf_decrypted(old(pdf).source(), old(pdf).password()) is Some,
        r matches Ok(v) ==> pdf_decrypted(old(pdf).source(), old(pdf).password()) == Some(v@),
{
    let mut output = Vec::new();
    match pdf.doc.save_modern(&mut output) {
        Ok(()) => Ok(output),
        Err(e) => Err(e),
    }
}

/// Calls `ToString::to_string` on a lopdf error, that is its `Display` text. Nothing is
/// stated of the text.
#[verifier::external_body]
fn pdf_error_text(e: &lopdf::Error) -> String {
    e.to_string()
}

/// Calls `ToString::to_string` on an I/O error, that is its `Display` text. Nothing is
/// stated of the text.
#[verifier::external_body]
fn io_error_text(e: &std::io::Error) -> String {
    e.to_string()
}

/// Whether `m` begins with `prefix`.
pub open spec fn text_starts_with(m: Seq<char>, prefix: Seq<char>) -> bool {
    prefix.len() <= m.len() && m.subrange(0, prefix.len() as int) == prefix
}

/// Whether `r` is an error whose text is `text`.
pub open spec fn err_is<T>(r: Result<T, String>, text: Seq<char>) -> bool {
    r matches Err(m) && m@ == text
}

/// Whether `r` is an error whose text begins with `prefix`.
pub open spec fn err_starts_with<T>(r: Result<T, String>, prefix: Seq<char>) -> bool {
    r matches Err(m) && text_starts_with(m@, prefix)
}

fn prefixed(prefix: &str, detail: String) -> (m: String)
    ensures
        m@ == prefix@ + detail@,
        text_starts_with(m@, prefix@),
{
    let mut m = String::from_str(prefix);
    m.append(detail.as_str());
    assert(m@.subrange(0, prefix@.len() as int) =~= prefix@);
    m
}

/// Decrypts an uploaded PDF when it is encrypted: an unencrypted PDF comes back as it
/// is; an encrypted one is opened with the password and written out again, and the
/// bytes written out (named `pdf_decrypted`) come back. The texts lopdf and the I/O
/// layer give their errors are not stated.
pub fn decrypt_pdf_if_needed(pdf_bytes: &[u8], password: Option<&str>) -> (r: Result<
    Vec<u8>,
    String,
>)
    ensures
        !pdf_loads(pdf_bytes@) ==> err_starts_with(r, "Failed to parse PDF: "@),
        pdf_loads(pdf_bytes@) && !pdf_encrypted(pdf_bytes@) ==> (r matches Ok(v) && v@
            == pdf_bytes@),
        pdf_loads(pdf_bytes@) && pdf_encrypted(pdf_bytes@) ==> match password {
            None => err_is(r, "PDF is encrypted but no password configured"@),
            Some(p) => if pdf_opens_with(pdf_bytes@, p@) {
                match pdf_decrypted(pdf_bytes@, p@) {
                    Some(out) => r matches Ok(v) && v@ == out,
                    None => err_starts_with(r, "Failed to export decrypted PDF: "@),
                }
            } else {
                err_starts_with(r, "Failed to decrypt PDF: "@)
            },
        },
{
    let doc = match pdf_load(pdf_bytes) {
        Ok(d) => d,
        Err(e) => return Err(prefixed("Failed to parse PDF: ", pdf_error_text(&e))),
    };
    if !pdf_is_encrypted(&doc) {
        return Ok(slice_to_vec(pdf_bytes));
    }
    let password = match password {
        Some(p) => p,
        None => return Err(String::from_str("PDF is encrypted but no password configured")),
    };
    let mut doc = match pdf_load_with_password(pdf_bytes, password) {
        Ok(d) => d,
        Err(e) => return Err(prefixed("Failed to decrypt PDF: ", pdf_error_text(&e))),
    };
    match pdf_save_modern(&mut doc) {
        Ok(output) => Ok(output),
        Err(e) => Err(prefixed("Failed to export decrypted PDF: ", io_error_text(&e))),
    }
}

/// Why an upload carried no PDF.
#[derive(Debug, Clone, Copy, PartialEq, Eq, Structural)]
pub enum UploadError {
    /// No field named `file` was sent.
    NoFile,
    /// Files were sent, and none carried a PDF; every one of them was skipped.
    NoPdf { file_count: usize, skipped: usize },
}

/// The decimal digits of `n`, without leading zeros.
pub open spec fn decimal(n: nat) -> Seq<char>
    decreases n,
{
    if n < 10 {
        seq![(48 + n) as char]
    } else {
        decimal(n / 10) + seq![(48 + n % 10) as char]
    }
}

fn digit_text(d: usize) -> (r: &'static str)
    requires
        d < 10,
    ensures
        r@ == seq![(48 + d) as char],
{
    let r = match d {
        0 => "0",
        1 => "1",
        2 => "2",
        3 => "3",
        4 => "4",
        5 => "5",
        6 => "6",
        7 => "7",
        8 => "8",
        _ => "9",
    };
    proof {
        reveal_strlit("0");
        reveal_strlit("1");
        reveal_strlit("2");
        reveal_strlit("3");
        reveal_strlit("4");
        reveal_strlit("5");
        reveal_strlit("6");
        reveal_strlit("7");
        reveal_strlit("8");
        reveal_strlit("9");
        assert(r@ =~= seq![(48 + d) as char]);
    }
    r
}

/// The decimal text of `n`.
pub fn decimal_text(n: usize) -> (r: String)
    ensures
        r@ == decimal(n as nat),
    decreases n,
{
    if n < 10 {
        String::from_str(digit_text(n))
    } else {
        let mut s = decimal_text(n / 10);
        s.append(digit_text(n % 10));
        s
    }
}

impl UploadError {
    /// The text of the error.
    pub open spec fn message_spec(&self) -> Seq<char> {
        match self {
            UploadError::NoFile => "No file uploaded"@,
            UploadError::NoPdf { file_count, skipped } => "No PDF attachment found in "@
                + decimal(*file_count as nat) + " file(s); skipped "@ + decimal(*skipped as nat),
        }
    }

    /// The text of the error, such as `No PDF attachment found in 2 file(s); skipped 2`.
    pub fn message(&self) -> (m: String)
        ensures
            m@ == self.message_spec(),
    {
        match self {
            UploadError::NoFile => String::from_str("No file uploaded"),
            UploadError::NoPdf { file_count, skipped } => {
                let mut m = String::from_str("No PDF attachment found in ");
                m.append(decimal_text(*file_count).as_str());
                m.append(" file(s); skipped ");
                m.append(decimal_text(*skipped).as_str());
                m
            },
        }
    }
}

/// The scan over the `file` fields of an upload, which stops at the first field that
/// carries a PDF. It counts the files seen and those skipped.
pub struct AttachmentScan {
    file_count: usize,
    skipped: usize,
}

impl AttachmentScan {
    #[verifier::type_invariant]
    spec fn counts_agree(&self) -> bool {
        self.skipped <= self.file_count
    }

    /// The number of `file` fields seen so far.
    pub closed spec fn files_seen(&self) -> nat {
        self.file_count as nat
    }

    /// The number of `file` fields that carried no PDF.
    pub closed spec fn files_skipped(&self) -> nat {
        self.skipped as nat
    }

    /// A scan that has seen nothing.
    pub fn new() -> (r: AttachmentScan)
        ensures
            r.files_seen() == 0,
            r.files_skipped() == 0,
    {
        AttachmentScan { file_count: 0, skipped: 0 }
    }

    /// The number of `file` fields seen so far.
    pub fn file_count(&self) -> (r: usize)
        ensures
            r == self.files_seen(),
    {
        self.file_count
    }

    /// Looks at the bytes of the next `file` field: the PDF it carries, if any; a field
    /// without one counts as skipped.
    pub fn observe(&mut self, bytes: &[u8]) -> (r: Option<Vec<u8>>)
        requires
            old(self).files_seen() < usize::MAX,
        ensures
            r.deep_view() == spec_normalize_pdf_payload(bytes@),
            final(self).files_seen() == old(self).files_seen() + 1,
            final(self).files_skipped() == old(self).files_skipped() + if r is Some {
                0int
            } else {
                1int
            },
    {
        proof {
            use_type_invariant(&*self);
        }
        let found = normalize_pdf_payload(bytes);
        if found.is_some() {
            self.file_count = self.file_count + 1;
        } else {
            self.file_count = self.file_count + 1;
            self.skipped = self.skipped + 1;
        }
        found
    }

    /// The error once the fields are exhausted without a PDF.
    pub fn no_pdf_error(&self) -> (r: UploadError)
        ensures
            self.files_seen() == 0 ==> r == UploadError::NoFile,
            self.files_seen() > 0 ==> r == (UploadError::NoPdf {
                file_count: self.files_seen() as usize,
                skipped: self.files_skipped() as usize,
            }),
    {
        if self.file_count == 0 {
            UploadError::NoFile
        } else {
            UploadError::NoPdf { file_count: self.file_count, skipped: self.skipped }
        }
    }
}

} // verus!
