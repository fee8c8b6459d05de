use vstd::prelude::*;

use crate::manifest::join_path;
use crate::text::{eq_ignoring_ascii_case, lemma_lead_len_is, push_char, same_text_ignoring_ascii_case, strip};

verus! {

// ---------------------------------------------------------------------------
// Uploaded files
// ---------------------------------------------------------------------------

/// Whether `c` is a control character (Unicode category Cc, `char::is_control`).
pub open spec fn is_control(c: char) -> bool {
    c <= '\u{1f}' || ('\u{7f}' <= c && c <= '\u{9f}')
}

/// A filename with `/` and `\` turned into `_` and control characters left out.
pub open spec fn sanitized(s: Seq<char>) -> Seq<char>
    decreases s.len(),
{
    if s.len() == 0 {
        s
    } else {
        let c = s.last();
        let rest = sanitized(s.drop_last());
        if c == '/' || c == '\\' {
            rest.push('_')
        } else if is_control(c) {
            rest
        } else {
            rest.push(c)
        }
    }
}

/// Makes an uploaded file's name safe to show and store: no path separators, no control
/// characters.
pub fn sanitize_filename(name: &str) -> (r: String)
    ensures
        r@ == sanitized(name@),
{
    let n = name.unicode_len();
    let mut out = String::new();
    let mut i: usize = 0;
    while i < n
        invariant
            n == name@.len(),
            i <= n,
            out@ == sanitized(name@.subrange(0, i as int)),
        decreases n - i,
    {
        let c = name.get_char(i);
        assert(name@.subrange(0, i + 1).drop_last() =~= name@.subrange(0, i as int));
        assert(name@.subrange(0, i + 1).last() == c);
        if c == '/' || c == '\\' {
            push_char(&mut out, '_');
        } else if !(c <= '\u{1f}' || ('\u{7f}' <= c && c <= '\u{9f}')) {
            push_char(&mut out, c);
        }
        i = i + 1;
    }
    assert(name@.subrange(0, n as int) =~= name@);
    out
}

/// Whether a MIME type is one of the accepted uploads, compared without ASCII case.
pub open spec fn mime_allowed(m: Seq<char>) -> bool {
    eq_ignoring_ascii_case(m, "text/plain"@) || eq_ignoring_ascii_case(m, "image/png"@)
        || eq_ignoring_ascii_case(m, "image/jpeg"@) || eq_ignoring_ascii_case(
        m,
        "application/pdf"@,
    )
}

/// Accepts the MIME types that uploads may have: plain text, PNG, JPEG and PDF.
pub fn allowed_mime(mime: &str) -> (r: bool)
    ensures
        r == mime_allowed(mime@),
{
    same_text_ignoring_ascii_case(mime, "text/plain") || same_text_ignoring_ascii_case(
        mime,
        "image/png",
    ) || same_text_ignoring_ascii_case(mime, "image/jpeg") || same_text_ignoring_ascii_case(
        mime,
        "application/pdf",
    )
}

/// Whether the first two bytes of `id` in UTF-8 end on a character boundary: `id` begins
/// with two ASCII characters, or with one character of two bytes.
pub open spec fn splits_after_two_bytes(id: Seq<char>) -> bool {
    id.len() >= 1 && if (id[0] as u32) < 128 {
        id.len() >= 2 && (id[1] as u32) < 128
    } else {
        (id[0] as u32) < 2048
    }
}

/// The characters that make up the first two bytes of `id`.
pub open spec fn leading_two_bytes(id: Seq<char>) -> Seq<char> {
    if (id[0] as u32) < 128 {
        id.subrange(0, 2)
    } else {
        id.subrange(0, 1)
    }
}

/// The path of a stored file: under `base`, in the subdirectory named by the first two bytes
/// of its id.
pub open spec fn stored_path(base: Seq<char>, id: Seq<char>) -> Seq<char> {
    join_path(join_path(base, leading_two_bytes(id)), id)
}

/// Where the file with content id `id` lies in the store under `base`.
pub fn file_path(base: &str, id: &str) -> (r: String)
    requires
        splits_after_two_bytes(id@),
    ensures
        r@ == stored_path(base@, id@),
{
    let mut sub = String::new();
    let first = id.get_char(0);
    push_char(&mut sub, first);
    if (first as u32) < 128 {
        push_char(&mut sub, id.get_char(1));
    }
    assert(sub@ =~= leading_two_bytes(id@));
    let dir = crate::manifest::join(base, sub.as_str());
    crate::manifest::join(dir.as_str(), id)
}

/// What the host knows of a stored file.
#[derive(Debug)]
pub struct FileMeta {
    pub mime: String,
    pub name: String,
}

// ---------------------------------------------------------------------------
// Room slugs
// ---------------------------------------------------------------------------

pub uninterp spec fn lower_of(s: Seq<char>) -> Seq<char>;

/// Relies on `str::to_lowercase`: the result depends on the characters alone.
#[verifier::external_body]
fn lowercase(s: &str) -> (r: String)
    ensures
        r@ == lower_of(s@),
{
    s.to_lowercase()
}

pub open spec fn is_ascii_alnum(c: char) -> bool {
    ('a' <= c && c <= 'z') || ('A' <= c && c <= 'Z') || ('0' <= c && c <= '9')
}

/// A text with each run of characters other than ASCII letters and digits turned into one
/// `-`; and whether it ends in such a `-`.
pub open spec fn dashed(s: Seq<char>) -> (Seq<char>, bool)
    decreases s.len(),
{
    if s.len() == 0 {
        (s, false)
    } else {
        let (out, prev_dash) = dashed(s.drop_last());
        let c = s.last();
        if is_ascii_alnum(c) {
            (out.push(c), false)
        } else if !prev_dash {
            (out.push('-'), true)
        } else {
            (out, true)
        }
    }
}

pub open spec fn dash() -> spec_fn(char) -> bool {
    |c: char| c == '-'
}

/// The slug of an already lower-cased text: runs of other characters become one `-`, and
/// leading and trailing `-` go.
pub open spec fn slug_of(s: Seq<char>) -> Seq<char> {
    strip(dashed(s).0, dash())
}

fn strip_dashes(s: &str) -> (r: String)
    ensures
        r@ == strip(s@, dash()),
{
    let ghost p = dash();
    let n = s.unicode_len();
    let mut start: usize = 0;
    while start < n && s.get_char(start) == '-'
        invariant
            n == s@.len(),
            start <= n,
            forall|j: int| 0 <= j < start ==> #[trigger] s@[j] == '-',
        decreases n - start,
    {
        start = start + 1;
    }
    proof {
        lemma_lead_len_is(s@, p, start as int);
    }
    let ghost front = s@.skip(start as int);
    let mut end: usize = n;
    while end > start && s.get_char(end - 1) == '-'
        invariant
            n == s@.len(),
            start <= end <= n,
            front == s@.skip(start as int),
            forall|j: int| end <= j < n ==> #[trigger] s@[j] == '-',
        decreases end - start,
    {
        end = end - 1;
    }
    proof {
        let rev = front.reverse();
        let k = (n - end) as int;
        assert forall|j: int| 0 <= j < k implies p(#[trigger] rev[j]) by {
            assert(rev[j] == s@[n - 1 - j]);
        }
        if k < rev.len() {
            assert(rev[k] == s@[end - 1]);
        }
        lemma_lead_len_is(rev, p, k);
    }
    let mut r = String::new();
    let mut i: usize = start;
    while i < end
        invariant
            n == s@.len(),
            start <= i <= end <= n,
            r@ == s@.subrange(start as int, i as int),
        decreases end - i,
    {
        push_char(&mut r, s.get_char(i));
        assert(s@.subrange(start as int, i + 1) =~= s@.subrange(start as int, i as int).push(
            s@[i as int],
        ));
        i = i + 1;
    }
    assert(r@ =~= strip(s@, p));
    r
}

/// The slug of a text that is already in lower case.
pub fn slug_from_lowercase(s: &str) -> (r: String)
    ensures
        r@ == slug_of(s@),
{
    let n = s.unicode_len();
    let mut out = String::new();
    let mut prev_dash = false;
    let mut i: usize = 0;
    while i < n
        invariant
            n == s@.len(),
            i <= n,
            (out@, prev_dash) == dashed(s@.subrange(0, i as int)),
        decreases n - i,
    {
        let c = s.get_char(i);
        assert(s@.subrange(0, i + 1).drop_last() =~= s@.subrange(0, i as int));
        assert(s@.subrange(0, i + 1).last() == c);
        if ('a' <= c && c <= 'z') || ('A' <= c && c <= 'Z') || ('0' <= c && c <= '9') {
            push_char(&mut out, c);
            prev_dash = false;
        } else if !prev_dash {
            push_char(&mut out, '-');
            prev_dash = true;
        }
        i = i + 1;
    }
    assert(s@.subrange(0, n as int) =~= s@);
    strip_dashes(out.as_str())
}

/// Turns a room name into a URL-friendly slug: lower case, ASCII letters and digits, single
/// `-` between words.
pub fn sanitize_slug(input: &str) -> (r: String)
    ensures
        r@ == slug_of(lower_of(input@)),
{
    let lower = lowercase(input);
    slug_from_lowercase(lower.as_str())
}

// ---------------------------------------------------------------------------
// Configuration
// ---------------------------------------------------------------------------

/// Credentials of the first administrator, consumed on first run.
#[derive(Clone)]
pub struct Bootstrap {
    pub username: String,
    pub password: String,
}

/// Runtime configuration of the chat service.
#[derive(Clone)]
pub struct Config {
    /// Address to bind the HTTP server to.
    pub bind: String,
    /// Base directory for stored data such as uploaded files.
    pub data_dir: String,
    /// Largest upload, in megabytes.
    pub max_upload_mb: u64,
    /// Whether verbose logging is on.
    pub logging_enabled: bool,
    pub bootstrap: Option<Bootstrap>,
}

/// Bytes in a megabyte.
pub const MEGABYTE: u64 = 1048576;

impl Config {
    /// The upload limit in bytes.
    pub fn max_upload_bytes(&self) -> (r: u64)
        requires
            self.max_upload_mb * MEGABYTE <= u64::MAX,
        ensures
            r == self.max_upload_mb * MEGABYTE,
    {
        self.max_upload_mb * MEGABYTE
    }
}

/// The port the server listens on when none is configured.
pub fn default_port() -> (r: u16)
    ensures
        r == 8787,
{
    8787
}

/// Logging is on unless configured off.
pub fn default_logging() -> (r: bool)
    ensures
        r,
{
    true
}

/// Claims carried by an issued token.
#[derive(Debug, PartialEq, Eq, Clone)]
pub struct Claims {
    pub sub: String,
    pub exp: usize,
}

/// The chat service's link back to the host.
pub trait CoreBridge {
    fn emit(&self, event: &str);
}

/// A bridge that goes nowhere, for running the service on its own.
#[derive(Clone, Copy, Default)]
pub struct NullCoreBridge;

impl CoreBridge for NullCoreBridge {
    fn emit(&self, event: &str) {
    }
}

} // verus!
