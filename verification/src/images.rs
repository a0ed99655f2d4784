//! Image references: classify a stored image value, decode an inline
//! base64 image, and externalize it into the project folder's `images/`
//! tree under a fresh name.

use vstd::prelude::*;

use crate::project_fs::ImageFile;
use crate::project_fs::ProjectFolder;
use crate::text::first_index_of;
use crate::text::find_char;
use crate::text::lemma_first_index_of_props;
use crate::text::spec_contains;
use crate::text::spec_starts_with;
use crate::text::str_contains;
use crate::text::str_starts_with;

verus! {

/// What kind of value an entity's image field holds.
pub enum ImageKind {
    /// An inline base64 payload, with or without a `data:` header:
    /// legacy, to be externalized.
    Base64(String),
    /// A link to the outside.
    ExternalUrl(String),
    /// A path relative to the project folder; anything unrecognized is
    /// carried as such a path.
    RelativePath(String),
    /// Nothing.
    Empty,
}

/// Ascii whitespace stripped by trimming.
pub open spec fn is_space(c: char) -> bool {
    c == ' ' || c == '\t' || c == '\n' || c == '\r'
}

pub open spec fn trim_start(s: Seq<char>) -> Seq<char>
    decreases s.len(),
{
    if s.len() > 0 && is_space(s[0]) {
        trim_start(s.skip(1))
    } else {
        s
    }
}

pub open spec fn trim_end(s: Seq<char>) -> Seq<char>
    decreases s.len(),
{
    if s.len() > 0 && is_space(s.last()) {
        trim_end(s.drop_last())
    } else {
        s
    }
}

/// The value with ascii whitespace stripped from both ends.
pub open spec fn spec_trim(s: Seq<char>) -> Seq<char> {
    trim_end(trim_start(s))
}

pub proof fn lemma_trim_start_at(s: Seq<char>, a: int)
    requires
        0 <= a <= s.len(),
        forall|j: int| 0 <= j < a ==> is_space(s[j]),
        a < s.len() ==> !is_space(s[a]),
    ensures
        trim_start(s) == s.skip(a),
    decreases a,
{
    if a == 0 {
        assert(s.skip(0) =~= s);
    } else {
        assert(is_space(s[0]));
        assert(forall|j: int| 0 <= j < s.skip(1).len() ==> s.skip(1)[j] == s[j + 1]);
        lemma_trim_start_at(s.skip(1), a - 1);
        assert(s.skip(1).skip(a - 1) =~= s.skip(a));
    }
}

pub proof fn lemma_trim_end_at(s: Seq<char>, b: int)
    requires
        0 <= b <= s.len(),
        forall|j: int| b <= j < s.len() ==> is_space(s[j]),
        b > 0 ==> !is_space(s[b - 1]),
    ensures
        trim_end(s) == s.take(b),
    decreases s.len(),
{
    if b == s.len() {
        if s.len() == 0 || !is_space(s.last()) {
            assert(s.take(b) =~= s);
        } else {
            assert(!is_space(s[b - 1]));
        }
    } else {
        assert(is_space(s.last()));
        assert(forall|j: int| 0 <= j < s.len() - 1 ==> s.drop_last()[j] == s[j]);
        lemma_trim_end_at(s.drop_last(), b);
        assert(s.drop_last().take(b) =~= s.take(b));
    }
}

/// Strip ascii whitespace from both ends of a value.
pub fn trim_value(s: &str) -> (r: String)
    ensures
        r@ == spec_trim(s@),
{
    let n = s.unicode_len();
    let mut a: usize = 0;
    while a < n && is_space_char(s.get_char(a))
        invariant
            n == s@.len(),
            a <= n,
            forall|j: int| 0 <= j < a ==> is_space(s@[j]),
        decreases n - a,
    {
        a += 1;
    }
    proof {
        lemma_trim_start_at(s@, a as int);
    }
    let mut b: usize = n;
    while b > a && is_space_char(s.get_char(b - 1))
        invariant
            n == s@.len(),
            a <= b <= n,
            forall|j: int| b <= j < n ==> is_space(s@[j]),
        decreases b,
    {
        b -= 1;
    }
    let r = s.substring_char(a, b);
    proof {
        let t = s@.skip(a as int);
        assert(forall|j: int| 0 <= j < t.len() ==> t[j] == s@[a + j]);
        lemma_trim_end_at(t, b - a);
        assert(t.take(b - a) =~= s@.subrange(a as int, b as int));
    }
    r.to_owned()
}

/// Whether one character is ascii whitespace.
fn is_space_char(c: char) -> (r: bool)
    ensures
        r == is_space(c),
{
    c == ' ' || c == '\t' || c == '\n' || c == '\r'
}

/// A character of the base64 alphabet.
pub open spec fn is_b64_char(c: char) -> bool {
    let u = c as int;
    (('0' as int) <= u && u <= ('9' as int)) || (('A' as int) <= u && u <= ('Z' as int)) || ((
    'a' as int) <= u && u <= ('z' as int)) || u == ('+' as int) || u == ('/' as int) || u == (
    '=' as int)
}

/// A long value made of base64 alphabet characters alone.
pub open spec fn spec_likely_base64(s: Seq<char>) -> bool {
    s.len() > 100 && forall|i: int| 0 <= i < s.len() ==> is_b64_char(#[trigger] s[i])
}

/// A quick content heuristic: a long string of base64 alphabet
/// characters is taken for an inline image.
pub fn is_likely_base64(s: &str) -> (r: bool)
    ensures
        r == spec_likely_base64(s@),
{
    let n = s.unicode_len();
    if n <= 100 {
        return false;
    }
    let mut i: usize = 0;
    while i < n
        invariant
            n == s@.len(),
            i <= n,
            forall|j: int| 0 <= j < i ==> is_b64_char(#[trigger] s@[j]),
        decreases n - i,
    {
        let c = s.get_char(i);
        let u = c as u32;
        let ok = (48 <= u && u <= 57) || (65 <= u && u <= 90) || (97 <= u && u <= 122) || u == 43
            || u == 47 || u == 61;
        if !ok {
            return false;
        }
        i += 1;
    }
    true
}

/// Classify an image value by its content: empty, inline base64, outside
/// link, or a path kept as it stands.
pub fn classify_image_value(value: &str) -> (r: ImageKind)
    ensures
        ({
            let t = spec_trim(value@);
            match r {
                ImageKind::Empty => t.len() == 0,
                ImageKind::Base64(s) => s@ == t && t.len() > 0 && (spec_starts_with(t, "data:"@)
                    || spec_likely_base64(t)),
                ImageKind::ExternalUrl(s) => s@ == t && t.len() > 0 && !spec_starts_with(
                    t,
                    "data:"@,
                ) && !spec_likely_base64(t) && (spec_starts_with(t, "http://"@)
                    || spec_starts_with(t, "https://"@)),
                ImageKind::RelativePath(s) => s@ == t && t.len() > 0 && !spec_starts_with(
                    t,
                    "data:"@,
                ) && !spec_likely_base64(t) && !spec_starts_with(t, "http://"@)
                    && !spec_starts_with(t, "https://"@),
            }
        }),
{
    let trimmed = trim_value(value);
    if trimmed.as_str().unicode_len() == 0 {
        ImageKind::Empty
    } else if str_starts_with(trimmed.as_str(), "data:") || is_likely_base64(trimmed.as_str()) {
        ImageKind::Base64(trimmed)
    } else if str_starts_with(trimmed.as_str(), "http://") || str_starts_with(
        trimmed.as_str(),
        "https://",
    ) {
        ImageKind::ExternalUrl(trimmed)
    } else {
        ImageKind::RelativePath(trimmed)
    }
}

/// Absolute location of an image file referenced from a project entity,
/// given the project folder and the entity's relative image path.
pub fn resolve_image_path(project_path: &str, relative_path: &str) -> (r: String)
    ensures
        r@ == project_path@ + "/"@ + relative_path@,
{
    let mut s = project_path.to_owned();
    s.append("/");
    s.append(relative_path);
    s
}

/// What decoding an inline base64 value yields; a name for the base64
/// crate's work.
pub uninterp spec fn b64_decode_of(s: Seq<char>) -> Option<Seq<u8>>;

/// Relies on base64's standard-alphabet engine: whether the text decodes,
/// and to which bytes, depends on the text alone.
#[verifier::external_body]
fn b64_decode(s: &str) -> (r: Result<Vec<u8>, String>)
    ensures
        match r {
            Ok(b) => b64_decode_of(s@) == Some(b@),
            Err(_) => b64_decode_of(s@) is None,
        },
{
    base64::Engine::decode(&base64::engine::general_purpose::STANDARD, s).map_err(
        |e| e.to_string(),
    )
}

/// The image format that a byte prefix betrays.
pub open spec fn spec_image_format(b: Seq<u8>) -> Option<Seq<char>> {
    if b.len() < 4 {
        None
    } else if b[0] == 0x89 && b[1] == 0x50 && b[2] == 0x4e && b[3] == 0x47 {
        Some("png"@)
    } else if b[0] == 0xff && b[1] == 0xd8 && b[2] == 0xff {
        Some("jpg"@)
    } else if b[0] == 0x52 && b[1] == 0x49 && b[2] == 0x46 && b[3] == 0x46 && b.len() > 11 && b[8]
        == 0x57 && b[9] == 0x45 && b[10] == 0x42 && b[11] == 0x50 {
        Some("webp"@)
    } else if b[0] == 0x47 && b[1] == 0x49 && b[2] == 0x46 && b[3] == 0x38 {
        Some("gif"@)
    } else {
        None
    }
}

/// Sniff an image format from its magic bytes.
pub fn detect_image_format(bytes: &Vec<u8>) -> (r: Option<&'static str>)
    ensures
        match r {
            Some(s) => spec_image_format(bytes@) == Some(s@),
            None => spec_image_format(bytes@) is None,
        },
{
    if bytes.len() < 4 {
        return None;
    }
    if bytes[0] == 0x89 && bytes[1] == 0x50 && bytes[2] == 0x4e && bytes[3] == 0x47 {
        Some("png")
    } else if bytes[0] == 0xff && bytes[1] == 0xd8 && bytes[2] == 0xff {
        Some("jpg")
    } else if bytes[0] == 0x52 && bytes[1] == 0x49 && bytes[2] == 0x46 && bytes[3] == 0x46
        && bytes.len() > 11 && bytes[8] == 0x57 && bytes[9] == 0x45 && bytes[10] == 0x42
        && bytes[11] == 0x50 {
        Some("webp")
    } else if bytes[0] == 0x47 && bytes[1] == 0x49 && bytes[2] == 0x46 && bytes[3] == 0x38 {
        Some("gif")
    } else {
        None
    }
}

/// The file extension a data URL's header asks for.
pub open spec fn spec_ext_from_header(h: Seq<char>) -> Seq<char> {
    if spec_contains(h, "image/png"@) {
        "png"@
    } else if spec_contains(h, "image/jpeg"@) || spec_contains(h, "image/jpg"@) {
        "jpg"@
    } else if spec_contains(h, "image/webp"@) {
        "webp"@
    } else if spec_contains(h, "image/gif"@) {
        "gif"@
    } else if spec_contains(h, "image/svg"@) {
        "svg"@
    } else {
        "png"@
    }
}

/// What decoding an image value yields: the raw bytes and the extension,
/// from the MIME header of a data URL, or sniffed from magic bytes with
/// PNG as the fallback.
pub open spec fn spec_decode_image(v: Seq<char>) -> Option<(Seq<u8>, Seq<char>)> {
    if spec_starts_with(v, "data:"@) {
        let ci = first_index_of(v, ',');
        if ci < 0 {
            None
        } else {
            match b64_decode_of(v.skip(ci + 1)) {
                Some(b) => Some((b, spec_ext_from_header(v.take(ci)))),
                None => None,
            }
        }
    } else {
        match b64_decode_of(v) {
            Some(b) => Some(
                (
                    b,
                    match spec_image_format(b) {
                        Some(x) => x,
                        None => "png"@,
                    },
                ),
            ),
            None => None,
        }
    }
}

/// Decode an inline image value into its bytes and file extension.
pub fn decode_image_data(image_data: &str) -> (r: Result<(Vec<u8>, String), String>)
    ensures
        r is Ok <==> spec_decode_image(image_data@) is Some,
        match r {
            Ok(t) => spec_decode_image(image_data@) == Some((t.0@, t.1@)),
            Err(_) => spec_decode_image(image_data@) is None,
        },
{
    if str_starts_with(image_data, "data:") {
        let ci = match find_char(image_data, ',') {
            Some(i) => i,
            None => {
                return Err(String::from_str("Invalid data URL format"));
            },
        };
        proof {
            lemma_first_index_of_props(image_data@, ',');
        }
        let n = image_data.unicode_len();
        let header = image_data.substring_char(0, ci);
        let payload = image_data.substring_char(ci + 1, n);
        proof {
            assert(header@ =~= image_data@.take(ci as int));
            assert(payload@ =~= image_data@.skip(ci + 1));
        }
        let bytes = match b64_decode(payload) {
            Ok(b) => b,
            Err(e) => {
                let mut msg = String::from_str("Failed to decode base64: ");
                msg.append(e.as_str());
                return Err(msg);
            },
        };
        let ext: &str = if str_contains(header, "image/png") {
            "png"
        } else if str_contains(header, "image/jpeg") || str_contains(header, "image/jpg") {
            "jpg"
        } else if str_contains(header, "image/webp") {
            "webp"
        } else if str_contains(header, "image/gif") {
            "gif"
        } else if str_contains(header, "image/svg") {
            "svg"
        } else {
            "png"
        };
        Ok((bytes, ext.to_owned()))
    } else {
        let bytes = match b64_decode(image_data) {
            Ok(b) => b,
            Err(e) => {
                let mut msg = String::from_str("Failed to decode base64: ");
                msg.append(e.as_str());
                return Err(msg);
            },
        };
        let ext: &str = match detect_image_format(&bytes) {
            Some(x) => x,
            None => "png",
        };
        Ok((bytes, ext.to_owned()))
    }
}

/// A character of a hyphenated lowercase uuid.
pub open spec fn is_uuid_char(c: char) -> bool {
    let u = c as int;
    (('0' as int) <= u && u <= ('9' as int)) || (('a' as int) <= u && u <= ('f' as int)) || u == (
    '-' as int)
}

/// Relies on uuid::Uuid::new_v4 and its hyphenated spelling: 36
/// characters, lowercase hex digits and dashes. The name is freshly
/// random; nothing ties one call to the next.
#[verifier::external_body]
fn fresh_image_name() -> (r: String)
    ensures
        r@.len() == 36,
        forall|i: int| 0 <= i < r@.len() ==> is_uuid_char(#[trigger] r@[i]),
{
    uuid::Uuid::new_v4().to_string()
}

/// Write an inline base64 image into the folder's `images/<category>/`
/// tree under a fresh name, and hand back the relative path the entity
/// field should record instead.
pub fn save_image_from_base64(
    folder: &mut ProjectFolder,
    category: &str,
    image_data: &str,
) -> (r: Result<String, String>)
    ensures
        r is Ok <==> spec_decode_image(image_data@) is Some,
        match r {
            Ok(p) => ({
                let d = spec_decode_image(image_data@)->0;
                &&& final(folder).images@.len() == old(folder).images@.len() + 1
                &&& forall|j: int|
                    0 <= j < old(folder).images@.len() ==> final(folder).images@[j] == old(
                        folder,
                    ).images@[j]
                &&& final(folder).images@.last().rel_path@ == p@
                &&& final(folder).images@.last().bytes@ == d.0
                &&& exists|nm: Seq<char>|
                    nm.len() == 36 && (forall|i: int|
                        0 <= i < nm.len() ==> is_uuid_char(#[trigger] nm[i])) && p@ == "images/"@
                        + category@ + "/"@ + nm + seq!['.'] + d.1
                &&& final(folder).name == old(folder).name
                &&& final(folder).manifest == old(folder).manifest
                &&& final(folder).project == old(folder).project
                &&& final(folder).chapters == old(folder).chapters
                &&& final(folder).scenes == old(folder).scenes
                &&& final(folder).characters == old(folder).characters
                &&& final(folder).locations == old(folder).locations
                &&& final(folder).lore == old(folder).lore
                &&& final(folder).timeline == old(folder).timeline
            }),
            Err(_) => *final(folder) == *old(folder),
        },
{
    let (bytes, ext) = match decode_image_data(image_data) {
        Ok(t) => t,
        Err(e) => {
            return Err(e);
        },
    };
    let name = fresh_image_name();
    let mut rel = String::from_str("images/");
    rel.append(category);
    rel.append("/");
    let rel2 = rel.concat(name.as_str());
    let rel3 = rel2.concat(".");
    let rel4 = rel3.concat(ext.as_str());
    proof {
        reveal_strlit(".");
        assert(rel4@ =~= "images/"@ + category@ + "/"@ + name@ + seq!['.'] + ext@);
    }
    let stored = rel4.clone();
    folder.images.push(ImageFile { rel_path: stored, bytes });
    Ok(rel4)
}

/// The extensions externalization can produce.
pub open spec fn is_image_ext(e: Seq<char>) -> bool {
    e == "png"@ || e == "jpg"@ || e == "webp"@ || e == "gif"@ || e == "svg"@
}

/// Whatever decodes, its extension is one of the five image extensions.
pub proof fn lemma_decoded_ext_is_image_ext(v: Seq<char>)
    requires
        spec_decode_image(v) is Some,
    ensures
        is_image_ext((spec_decode_image(v)->0).1),
{
}

/// Law: externalization is idempotent. A value of the shape that
/// `save_image_from_base64` hands back — `images/<category>/<name>.<ext>`
/// with a sane category — is classified as a relative path, never again
/// as inline base64, so a second externalization pass leaves it alone.
pub proof fn lemma_externalized_path_stays_relative(
    p: Seq<char>,
    category: Seq<char>,
    nm: Seq<char>,
    ext: Seq<char>,
)
    requires
        p == "images/"@ + category + "/"@ + nm + seq!['.'] + ext,
        forall|i: int| 0 <= i < category.len() ==> !is_space(#[trigger] category[i]),
        is_image_ext(ext),
    ensures
        spec_trim(p) == p,
        p.len() > 0,
        !spec_starts_with(p, "data:"@),
        !spec_likely_base64(p),
        !spec_starts_with(p, "http://"@),
        !spec_starts_with(p, "https://"@),
{
    reveal_strlit("images/");
    reveal_strlit("/");
    reveal_strlit("data:");
    reveal_strlit("http://");
    reveal_strlit("https://");
    reveal_strlit("png");
    reveal_strlit("jpg");
    reveal_strlit("webp");
    reveal_strlit("gif");
    reveal_strlit("svg");
    assert(p[0] == 'i');
    assert(p.last() == ext.last());
    assert(!is_space(p.last()));
    assert(trim_start(p) == p);
    assert(trim_end(p) == p);
    assert(!spec_starts_with(p, "data:"@)) by {
        if spec_starts_with(p, "data:"@) {
            assert(p.subrange(0, 5)[0] == p[0]);
        }
    }
    assert(!spec_starts_with(p, "http://"@)) by {
        if spec_starts_with(p, "http://"@) {
            assert(p.subrange(0, 7)[0] == p[0]);
        }
    }
    assert(!spec_starts_with(p, "https://"@)) by {
        if spec_starts_with(p, "https://"@) {
            assert(p.subrange(0, 8)[0] == p[0]);
        }
    }
    // The dot before the extension is not a base64 alphabet character.
    let dot = p.len() - ext.len() - 1;
    assert(p[dot] == '.');
    assert(!is_b64_char('.'));
}

} // verus!
